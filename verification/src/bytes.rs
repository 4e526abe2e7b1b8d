//! A model of positioned reads over in-memory bytes.
//!
//! `read_range` is the meaning of "read `len` bytes at offset `off`" against
//! a byte store: short when the range passes the end of the store, empty at
//! or past the end, never an error.  The driver's read planning and the
//! preload cache are both specified against it.

use vstd::prelude::*;

verus! {

/// The bytes a positioned read of `len` bytes at offset `off` returns from
/// the store `b`.
pub open spec fn read_range(b: Seq<u8>, off: int, len: int) -> Seq<u8> {
    if off < 0 || len < 0 || off >= b.len() {
        Seq::empty()
    } else if off + len <= b.len() {
        b.subrange(off, off + len)
    } else {
        b.subrange(off, b.len() as int)
    }
}

/// Performs a positioned read against in-memory bytes, exactly as
/// `read_range` states it.
pub fn read_from(data: &Vec<u8>, off: u64, len: u64) -> (r: Vec<u8>)
    ensures
        r@ == read_range(data@, off as int, len as int),
{
    let n = data.len();
    if off >= n as u64 {
        let r: Vec<u8> = Vec::new();
        proof {
            assert(r@ =~= read_range(data@, off as int, len as int));
        }
        return r;
    }
    let s = off as usize;
    let e64 = off.saturating_add(len);
    let e = if e64 >= n as u64 {
        n
    } else {
        e64 as usize
    };
    let mut r: Vec<u8> = Vec::new();
    let mut i: usize = s;
    while i < e
        invariant
            s <= i <= e <= n,
            n == data@.len(),
            r@.len() == i - s,
            forall|m: int| 0 <= m < r@.len() ==> r@[m] == data@[s + m],
        decreases e - i,
    {
        r.push(data[i]);
        i += 1;
    }
    proof {
        assert(r@ =~= read_range(data@, off as int, len as int));
    }
    r
}

/// Law: a read served from an eagerly captured copy of a file range equals
/// the same read done directly against the backing bytes.  `d` is the copy a
/// preload of the range `[cfg_off, cfg_off + vsize)` captured; serving
/// `[off, off + len)` from it returns byte for byte what a direct positioned
/// read of the backing store at the derived absolute offset and clamped
/// length returns.
pub proof fn lemma_preload_serves_direct(
    backing: Seq<u8>,
    cfg_off: u64,
    vsize: u64,
    d: Seq<u8>,
    off: u64,
    len: u64,
)
    requires
        d == read_range(backing, cfg_off as int, vsize as int),
        backing.len() <= u64::MAX,
    ensures
        read_range(d, off as int, len as int) == read_range(
            backing,
            cfg_off.saturating_add(off) as int,
            (if vsize.saturating_sub(off) <= len {
                vsize.saturating_sub(off)
            } else {
                len
            }) as int,
        ),
{
    let big = backing.len() as int;
    let o0 = cfg_off as int;
    let sz = vsize as int;
    let o = off as int;
    let l = len as int;
    let fo = cfg_off.saturating_add(off) as int;
    let fl = (if vsize.saturating_sub(off) <= len {
        vsize.saturating_sub(off)
    } else {
        len
    }) as int;
    if o0 >= big {
        assert(d.len() == 0);
        assert(read_range(d, o, l) =~= read_range(backing, fo, fl));
    } else {
        let dlen = d.len() as int;
        assert(dlen == if sz <= big - o0 {
            sz
        } else {
            big - o0
        });
        if o >= dlen {
            assert(read_range(d, o, l).len() == 0);
            if o >= sz {
                assert(fl == 0);
                assert(read_range(backing, fo, fl) =~= read_range(d, o, l));
            } else {
                assert(dlen == big - o0);
                assert(o0 + o >= big);
                assert(fo >= big);
                assert(read_range(backing, fo, fl) =~= read_range(d, o, l));
            }
        } else {
            assert(o < dlen <= sz);
            assert(o0 + o < big);
            assert(fo == o0 + o);
            assert(fl == if sz - o <= l {
                sz - o
            } else {
                l
            });
            let lhs_end = if o + l <= dlen {
                o + l
            } else {
                dlen
            };
            assert(read_range(d, o, l) == d.subrange(o, lhs_end));
            let rhs_end = if fo + fl <= big {
                fo + fl
            } else {
                big
            };
            assert(read_range(backing, fo, fl) == backing.subrange(fo, rhs_end));
            assert(rhs_end == o0 + lhs_end);
            assert(d.subrange(o, lhs_end) =~= backing.subrange(o0 + o, o0 + lhs_end));
        }
    }
}

} // verus!
