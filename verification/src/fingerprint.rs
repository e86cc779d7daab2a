use vstd::prelude::*;

use crate::errors::SyncError;

verus! {

/// ASCII hexadecimal digit: `0`-`9`, `a`-`f` or `A`-`F`.
pub open spec fn is_hex_digit(c: char) -> bool {
    ||| ('0' <= c && c <= '9')
    ||| ('a' <= c && c <= 'f')
    ||| ('A' <= c && c <= 'F')
}

/// A fingerprint token stands in `s` at position `i`: thirty-two consecutive
/// hexadecimal characters.
pub open spec fn md5_token_at(s: Seq<char>, i: int) -> bool {
    &&& 0 <= i
    &&& i + 32 <= s.len()
    &&& forall|j: int| i <= j < i + 32 ==> is_hex_digit(#[trigger] s[j])
}

fn hex_digit(c: char) -> (r: bool)
    ensures
        r == is_hex_digit(c),
{
    ('0' <= c && c <= '9') || ('a' <= c && c <= 'f') || ('A' <= c && c <= 'F')
}

/// Scans a response body for the first run of thirty-two hexadecimal
/// characters and returns it; fails with `NotFound` when no such run exists
/// anywhere in the body.
pub fn extract_md5(body: &str) -> (r: Result<String, SyncError>)
    ensures
        match r {
            Ok(token) => exists|i: int|
                {
                    &&& #[trigger] md5_token_at(body@, i)
                    &&& forall|k: int| 0 <= k < i ==> !md5_token_at(body@, k)
                    &&& token@ == body@.subrange(i, i + 32)
                },
            Err(e) => {
                &&& e == SyncError::NotFound
                &&& forall|i: int| !md5_token_at(body@, i)
            },
        },
{
    let n = body.unicode_len();
    if n < 32 {
        return Err(SyncError::NotFound);
    }
    let mut i: usize = 0;
    while i <= n - 32
        invariant
            n == body@.len(),
            32 <= n,
            i <= n - 32 + 1,
            forall|k: int| 0 <= k < i ==> !md5_token_at(body@, k),
        decreases n - 32 - i + 1,
    {
        let mut j: usize = 0;
        let mut all_hex = true;
        while j < 32
            invariant
                n == body@.len(),
                32 <= n,
                i + 32 <= n,
                j <= 32,
                all_hex ==> forall|k: int| i <= k < i + j ==> is_hex_digit(#[trigger] body@[k]),
                !all_hex ==> !md5_token_at(body@, i as int),
            decreases 32 - j,
        {
            if !hex_digit(body.get_char(i + j)) {
                all_hex = false;
                j = 32;
            } else {
                j = j + 1;
            }
        }
        if all_hex {
            assert(md5_token_at(body@, i as int));
            let token = body.substring_char(i, i + 32);
            return Ok(token.to_owned());
        }
        i = i + 1;
    }
    assert(forall|k: int| !md5_token_at(body@, k));
    Err(SyncError::NotFound)
}

} // verus!
