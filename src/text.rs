use vstd::prelude::*;
use vstd::slice::{slice_subrange, slice_to_vec};
use vstd::utf8::{
    decode_utf8, encode_utf8, encode_utf8_decode_utf8, encode_utf8_valid_utf8, valid_utf8,
};

use crate::compatibility::Compatibility;
use crate::table::{Handle, HandleTable, Slots};

verus! {

/// `n` is the position of the first NUL byte in `b`.
pub open spec fn terminator(b: Seq<u8>, n: int) -> bool {
    &&& 0 <= n < b.len()
    &&& b[n] == 0
    &&& forall|j: int| 0 <= j < n ==> b[j] != 0
}

/// The bytes of the NUL-terminated string that `b` starts with.
pub open spec fn c_text(b: Seq<u8>) -> Seq<u8> {
    b.take(choose|n: int| terminator(b, n))
}

/// No byte of `b` is NUL.
pub open spec fn nul_free(b: Seq<u8>) -> bool {
    forall|i: int| 0 <= i < b.len() ==> b[i] != 0
}

proof fn lemma_terminator_unique(b: Seq<u8>, n: int)
    requires
        terminator(b, n),
    ensures
        c_text(b) == b.take(n),
{
    let m = choose|m: int| terminator(b, m);
    assert(terminator(b, m));
    if m < n {
        assert(b[m] != 0);
    } else if n < m {
        assert(b[n] != 0);
    }
}

/// Relies on `String::from_utf8`: it succeeds exactly on valid UTF-8 and then
/// holds those very bytes.
#[verifier::external_body]
fn text_from_utf8(b: Vec<u8>) -> (r: Option<String>)
    ensures
        r is Some <==> valid_utf8(b@),
        r matches Some(s) ==> encode_utf8(s@) == b@,
{
    String::from_utf8(b).ok()
}

/// Text crosses the boundary as a NUL-terminated UTF-8 buffer.
impl Compatibility for String {
    /// The UTF-8 encoding followed by a NUL byte. A NUL inside the text is
    /// not rejected: the reader stops at the first one.
    open spec fn exported(v: Seq<char>) -> Seq<u8> {
        encode_utf8(v) + seq![0u8]
    }

    open spec fn readable(b: Seq<u8>) -> bool {
        &&& exists|n: int| terminator(b, n)
        &&& valid_utf8(c_text(b))
    }

    open spec fn read(b: Seq<u8>) -> Seq<char> {
        decode_utf8(c_text(b))
    }

    /// Text whose encoding holds no NUL byte.
    open spec fn intact(v: Seq<char>) -> bool {
        nul_free(encode_utf8(v))
    }

    /// The buffer is released without being decoded.
    open spec fn releasable(t: Slots, h: Handle) -> bool {
        h < t.len() && t[h as int] is Some
    }

    open spec fn released(t: Slots, h: Handle) -> Slots {
        t.update(h as int, None)
    }

    proof fn lemma_round_trip(v: Seq<char>) {
        let e = encode_utf8(v);
        let b = Self::exported(v);
        assert(terminator(b, e.len() as int));
        lemma_terminator_unique(b, e.len() as int);
        assert(b.take(e.len() as int) =~= e);
        encode_utf8_valid_utf8(v);
        encode_utf8_decode_utf8(v);
    }

    proof fn lemma_release_frees(t: Slots, h: Handle) {
    }

    fn into_raw_pointer(self, table: &mut HandleTable) -> (h: Handle) {
        let s: &str = self.as_str();
        let mut b = slice_to_vec(s.as_bytes());
        b.push(0u8);
        assert(b@ =~= Self::exported(self@));
        table.export(b)
    }

    fn from_raw_pointer(h: Handle, table: &mut HandleTable) -> (v: Self) {
        let b = table.reclaim(h);
        assert(exists|n: int| terminator(b@, n));
        let ghost n = choose|n: int| terminator(b@, n);
        let len: usize = b.len();
        let mut i: usize = 0;
        while b[i] != 0
            invariant
                len == b@.len(),
                terminator(b@, n),
                0 <= i <= n,
                forall|j: int| 0 <= j < i ==> b@[j] != 0,
            decreases n - i,
        {
            i = i + 1;
        }
        assert(terminator(b@, i as int));
        proof {
            lemma_terminator_unique(b@, i as int);
        }
        let text = slice_to_vec(slice_subrange(b.as_slice(), 0, i));
        assert(text@ =~= c_text(b@));
        match text_from_utf8(text) {
            Some(s) => {
                proof {
                    encode_utf8_decode_utf8(s@);
                }
                s
            },
            None => {
                assert(false);
                String::new()
            },
        }
    }

    fn free_raw_pointer(h: Handle, table: &mut HandleTable) {
        table.release(h);
    }
}

/// A handle fresh from exporting text may be destroyed, and destroying it
/// leaves the table as it was apart from that one emptied slot.
pub proof fn lemma_fresh_text_handle_releasable(v: Seq<char>, before: Slots)
    requires
        before.len() <= u64::MAX,
    ensures
        ({
            let after = before.push(Some(<String as Compatibility>::exported(v)));
            let h = before.len() as Handle;
            &&& <String as Compatibility>::releasable(after, h)
            &&& <String as Compatibility>::released(after, h) == before.push(None)
        }),
{
    let after = before.push(Some(<String as Compatibility>::exported(v)));
    let h = before.len() as Handle;
    assert(after.update(h as int, None) =~= before.push(None));
}

} // verus!
