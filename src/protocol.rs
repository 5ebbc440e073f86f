use vstd::prelude::*;

use crate::constants::{AUTH_TAG_LEN, NONCE_LEN, SALT_LEN};
use crate::error::VaultError;
use crate::text::{ascii, ascii_bytes, chars_of, is_text, trim, trimmed};

verus! {

/// The requests that carry no payload.
#[derive(Debug, Clone, Copy, PartialEq, Eq, Structural)]
pub enum Request {
    CheckVaultFile,
    GetSalt,
    GetVault,
    ResetVault,
}

/// The shortest blob: a nonce and a tag around an empty ciphertext.
pub const MIN_BLOB_LEN: usize = 28;

pub const NEWLINE: u8 = 10;

pub open spec fn request_text(r: Request) -> Seq<char> {
    match r {
        Request::CheckVaultFile => "CHECK_VAULT_FILE\n"@,
        Request::GetSalt => "GET_SALT\n"@,
        Request::GetVault => "GET_VAULT\n"@,
        Request::ResetVault => "RESET_VAULT\n"@,
    }
}

/// The line that sends a request.
pub fn request_line(r: Request) -> (out: Vec<u8>)
    ensures
        out@ == ascii(request_text(r)),
{
    match r {
        Request::CheckVaultFile => {
            proof {
                reveal_strlit("CHECK_VAULT_FILE\n");
            }
            ascii_bytes("CHECK_VAULT_FILE\n")
        },
        Request::GetSalt => {
            proof {
                reveal_strlit("GET_SALT\n");
            }
            ascii_bytes("GET_SALT\n")
        },
        Request::GetVault => {
            proof {
                reveal_strlit("GET_VAULT\n");
            }
            ascii_bytes("GET_VAULT\n")
        },
        Request::ResetVault => {
            proof {
                reveal_strlit("RESET_VAULT\n");
            }
            ascii_bytes("RESET_VAULT\n")
        },
    }
}

/// The decimal digits of `n`, most significant first, as ASCII bytes.
pub open spec fn decimal(n: nat) -> Seq<u8>
    decreases n,
{
    if n < 10 {
        seq![(48 + n) as u8]
    } else {
        decimal(n / 10).push((48 + n % 10) as u8)
    }
}

pub fn decimal_bytes(n: usize) -> (r: Vec<u8>)
    ensures
        r@ == decimal(n as nat),
    decreases n,
{
    if n < 10 {
        let mut r: Vec<u8> = Vec::new();
        r.push((48 + n) as u8);
        assert(r@ =~= decimal(n as nat));
        r
    } else {
        let mut r = decimal_bytes(n / 10);
        r.push((48 + n % 10) as u8);
        r
    }
}

/// A header line `<name><decimal length>\n` followed by the payload.
pub open spec fn framed(name: Seq<char>, payload: Seq<u8>) -> Seq<u8> {
    ascii(name) + decimal(payload.len()) + seq![NEWLINE] + payload
}

fn frame(name: &str, payload: &[u8]) -> (r: Vec<u8>)
    requires
        vstd::string::is_ascii(name),
    ensures
        r@ == framed(name@, payload@),
{
    let mut r = ascii_bytes(name);
    let mut d = decimal_bytes(payload.len());
    r.append(&mut d);
    r.push(NEWLINE);
    r.extend_from_slice(payload);
    r
}

/// `UPDATE_SALT:<len>\n` and the salt. A salt of any length but 32 is refused
/// before anything is sent.
pub fn update_salt_message(salt: &[u8]) -> (r: Result<Vec<u8>, VaultError>)
    ensures
        salt@.len() != SALT_LEN ==> r == Err::<Vec<u8>, VaultError>(VaultError::Protocol),
        salt@.len() == SALT_LEN ==> (r matches Ok(m) && m@ == framed("UPDATE_SALT:"@, salt@)),
{
    if salt.len() != SALT_LEN {
        return Err(VaultError::Protocol);
    }
    proof {
        reveal_strlit("UPDATE_SALT:");
    }
    Ok(frame("UPDATE_SALT:", salt))
}

/// `UPDATE_VAULT:<len>\n` and the blob.
pub fn update_vault_message(blob: &[u8]) -> (r: Vec<u8>)
    ensures
        r@ == framed("UPDATE_VAULT:"@, blob@),
{
    proof {
        reveal_strlit("UPDATE_VAULT:");
    }
    frame("UPDATE_VAULT:", blob)
}

pub open spec fn is_digit(c: char) -> bool {
    '0' <= c && c <= '9'
}

pub open spec fn all_digits(s: Seq<char>) -> bool {
    forall|i: int| 0 <= i < s.len() ==> is_digit(#[trigger] s[i])
}

/// The number that a run of decimal digits spells.
pub open spec fn digits_value(s: Seq<char>) -> nat
    decreases s.len(),
{
    if s.len() == 0 {
        0
    } else {
        digits_value(s.drop_last()) * 10 + ((s.last() as u32 - 48) as nat)
    }
}

/// What `usize::from_str` accepts: an optional `+` and at least one digit,
/// of a value that fits.
pub open spec fn parse_usize(s: Seq<char>) -> Option<usize> {
    let d = if s.len() > 0 && s[0] == '+' {
        s.drop_first()
    } else {
        s
    };
    if d.len() > 0 && all_digits(d) && digits_value(d) <= usize::MAX {
        Some(digits_value(d) as usize)
    } else {
        None
    }
}

proof fn lemma_digits_value_grows(s: Seq<char>, i: int)
    requires
        0 <= i <= s.len(),
        all_digits(s),
    ensures
        digits_value(s.subrange(0, i)) <= digits_value(s),
    decreases s.len() - i,
{
    if i < s.len() {
        lemma_digits_value_grows(s, i + 1);
        let t = s.subrange(0, i + 1);
        assert(t.drop_last() =~= s.subrange(0, i));
        assert(is_digit(s[i]));
    } else {
        assert(s.subrange(0, i) =~= s);
    }
}

/// Reads a decimal number as `usize::from_str` does.
pub fn parse_decimal(cs: &Vec<char>, start: usize) -> (r: Option<usize>)
    requires
        start <= cs@.len(),
    ensures
        r == parse_usize(cs@.subrange(start as int, cs@.len() as int)),
{
    let ghost s = cs@.subrange(start as int, cs@.len() as int);
    let mut i = start;
    if i < cs.len() && cs[i] == '+' {
        i += 1;
    }
    let ghost d = cs@.subrange(i as int, cs@.len() as int);
    assert(d == if s.len() > 0 && s[0] == '+' { s.drop_first() } else { s });
    if i == cs.len() {
        return None;
    }
    let first = i;
    let mut v: usize = 0;
    while i < cs.len()
        invariant
            first <= i <= cs@.len(),
            s == cs@.subrange(start as int, cs@.len() as int),
            d == (if s.len() > 0 && s[0] == '+' { s.drop_first() } else { s }),
            d == cs@.subrange(first as int, cs@.len() as int),
            all_digits(cs@.subrange(first as int, i as int)),
            v as nat == digits_value(cs@.subrange(first as int, i as int)),
        decreases cs@.len() - i,
    {
        let c = cs[i];
        let ghost pre = cs@.subrange(first as int, i as int);
        let ghost next = cs@.subrange(first as int, i + 1);
        assert(next.drop_last() =~= pre);
        if !('0' <= c && c <= '9') {
            assert(!is_digit(d[i - first]));
            assert(!all_digits(d));
            return None;
        }
        let digit = (c as u32 - 48) as usize;
        if v > (usize::MAX - digit) / 10 {
            proof {
                assert(v * 10 + digit > usize::MAX) by (nonlinear_arith)
                    requires
                        v > (usize::MAX - digit) / 10,
                        digit <= 9,
                ;
                assert(next.last() == c);
                assert(all_digits(next));
                assert(digits_value(next) == v * 10 + digit);
                if all_digits(d) {
                    assert(d.subrange(0, i + 1 - first) =~= next);
                    lemma_digits_value_grows(d, i + 1 - first);
                }
            }
            return None;
        }
        v = v * 10 + digit;
        i += 1;
    }
    assert(cs@.subrange(first as int, i as int) =~= d);
    Some(v)
}

/// What the answer to `GET_VAULT` announces: the header `VAULT:<len>`, with a
/// length of at least a nonce and a tag.
pub open spec fn vault_header_spec(line: Seq<char>) -> Result<usize, VaultError> {
    let p = "VAULT:"@;
    if line.len() < p.len() || line.subrange(0, p.len() as int) != p {
        Err(VaultError::Protocol)
    } else {
        match parse_usize(line.subrange(p.len() as int, line.len() as int)) {
            None => Err(VaultError::Protocol),
            Some(n) => if n < MIN_BLOB_LEN {
                Err(VaultError::Protocol)
            } else {
                Ok(n)
            },
        }
    }
}

/// Reads the header line that answers `GET_VAULT`.
pub fn parse_vault_header(line: &str) -> (r: Result<usize, VaultError>)
    ensures
        r == vault_header_spec(line@),
{
    let cs = chars_of(line);
    let prefix = chars_of("VAULT:");
    proof {
        reveal_strlit("VAULT:");
    }
    if cs.len() < prefix.len() {
        return Err(VaultError::Protocol);
    }
    let mut i: usize = 0;
    while i < prefix.len()
        invariant
            prefix@ == "VAULT:"@,
            cs@ == line@,
            prefix@.len() <= cs@.len(),
            i <= prefix@.len(),
            forall|k: int| 0 <= k < i ==> cs@[k] == prefix@[k],
        decreases prefix@.len() - i,
    {
        if cs[i] != prefix[i] {
            assert(cs@.subrange(0, prefix@.len() as int)[i as int] != prefix@[i as int]);
            return Err(VaultError::Protocol);
        }
        i += 1;
    }
    assert(cs@.subrange(0, prefix@.len() as int) =~= prefix@);
    match parse_decimal(&cs, prefix.len()) {
        None => Err(VaultError::Protocol),
        Some(n) => if n < MIN_BLOB_LEN {
            Err(VaultError::Protocol)
        } else {
            Ok(n)
        },
    }
}

/// The answer to `CHECK_VAULT_FILE`, once trimmed: whether a vault exists.
pub open spec fn vault_state_spec(line: Seq<char>) -> Result<bool, VaultError> {
    if trim(line) == "VAULT_EXISTS"@ {
        Ok(true)
    } else if trim(line) == "VAULT_NOT_EXISTS"@ {
        Ok(false)
    } else {
        Err(VaultError::Protocol)
    }
}

pub fn parse_vault_state(line: &str) -> (r: Result<bool, VaultError>)
    ensures
        r == vault_state_spec(line@),
{
    let t = trimmed(line);
    if is_text(&t, "VAULT_EXISTS") {
        Ok(true)
    } else if is_text(&t, "VAULT_NOT_EXISTS") {
        Ok(false)
    } else {
        Err(VaultError::Protocol)
    }
}

/// The answer to `RESET_VAULT`, once trimmed: whether the device erased the vault.
pub open spec fn reset_response_spec(line: Seq<char>) -> Result<bool, VaultError> {
    if trim(line) == "RESET_OK"@ {
        Ok(true)
    } else if trim(line) == "RESET_FAILED"@ {
        Ok(false)
    } else {
        Err(VaultError::Protocol)
    }
}

pub fn parse_reset_response(line: &str) -> (r: Result<bool, VaultError>)
    ensures
        r == reset_response_spec(line@),
{
    let t = trimmed(line);
    if is_text(&t, "RESET_OK") {
        Ok(true)
    } else if is_text(&t, "RESET_FAILED") {
        Ok(false)
    } else {
        Err(VaultError::Protocol)
    }
}

/// `nonce || ciphertext || tag`.
pub fn frame_blob(nonce: &[u8], ciphertext: &[u8], tag: &[u8]) -> (r: Vec<u8>)
    ensures
        r@ == nonce@ + ciphertext@ + tag@,
{
    let mut r: Vec<u8> = Vec::new();
    r.extend_from_slice(nonce);
    r.extend_from_slice(ciphertext);
    r.extend_from_slice(tag);
    assert(r@ =~= nonce@ + ciphertext@ + tag@);
    r
}

/// The nonce, ciphertext and tag of a blob; a blob shorter than a nonce and a
/// tag is a protocol error.
pub open spec fn blob_parts(b: Seq<u8>) -> Result<(Seq<u8>, Seq<u8>, Seq<u8>), VaultError> {
    if b.len() < MIN_BLOB_LEN {
        Err(VaultError::Protocol)
    } else {
        Ok(
            (
                b.subrange(0, NONCE_LEN as int),
                b.subrange(NONCE_LEN as int, b.len() - AUTH_TAG_LEN),
                b.subrange(b.len() - AUTH_TAG_LEN, b.len() as int),
            ),
        )
    }
}

pub open spec fn parts_view(r: Result<(Vec<u8>, Vec<u8>, Vec<u8>), VaultError>) -> Result<
    (Seq<u8>, Seq<u8>, Seq<u8>),
    VaultError,
> {
    match r {
        Ok((n, c, t)) => Ok((n@, c@, t@)),
        Err(e) => Err(e),
    }
}

fn copy_range(b: &[u8], from: usize, to: usize) -> (r: Vec<u8>)
    requires
        from <= to <= b@.len(),
    ensures
        r@ == b@.subrange(from as int, to as int),
{
    let mut r: Vec<u8> = Vec::new();
    let mut i = from;
    while i < to
        invariant
            from <= i <= to <= b@.len(),
            r@ == b@.subrange(from as int, i as int),
        decreases to - i,
    {
        r.push(b[i]);
        i += 1;
        assert(r@ =~= b@.subrange(from as int, i as int));
    }
    r
}

/// Splits a blob into its nonce, ciphertext and tag.
pub fn split_blob(blob: &[u8]) -> (r: Result<(Vec<u8>, Vec<u8>, Vec<u8>), VaultError>)
    ensures
        parts_view(r) == blob_parts(blob@),
{
    let len = blob.len();
    if len < MIN_BLOB_LEN {
        return Err(VaultError::Protocol);
    }
    let nonce = copy_range(blob, 0, NONCE_LEN);
    let ciphertext = copy_range(blob, NONCE_LEN, len - AUTH_TAG_LEN);
    let tag = copy_range(blob, len - AUTH_TAG_LEN, len);
    Ok((nonce, ciphertext, tag))
}

/// Splitting a framed blob gives back the nonce, ciphertext and tag it was made of.
pub proof fn lemma_split_inverts_frame(nonce: Seq<u8>, ciphertext: Seq<u8>, tag: Seq<u8>)
    requires
        nonce.len() == NONCE_LEN,
        tag.len() == AUTH_TAG_LEN,
    ensures
        blob_parts(nonce + ciphertext + tag) == Ok::<(Seq<u8>, Seq<u8>, Seq<u8>), VaultError>(
            (nonce, ciphertext, tag),
        ),
{
    let b = nonce + ciphertext + tag;
    assert(b.subrange(0, NONCE_LEN as int) =~= nonce);
    assert(b.subrange(NONCE_LEN as int, b.len() - AUTH_TAG_LEN) =~= ciphertext);
    assert(b.subrange(b.len() - AUTH_TAG_LEN, b.len() as int) =~= tag);
}

} // verus!

verus! {

pub open spec fn digit_char(d: nat) -> char {
    ((48 + d) as u8) as char
}

/// The decimal digits of `n`, most significant first, as text.
pub open spec fn decimal_text(n: nat) -> Seq<char>
    decreases n,
{
    if n < 10 {
        seq![digit_char(n)]
    } else {
        decimal_text(n / 10).push(digit_char(n % 10))
    }
}

proof fn lemma_decimal_text(n: nat)
    ensures
        ascii(decimal_text(n)) == decimal(n),
        decimal_text(n).len() > 0,
        all_digits(decimal_text(n)),
        decimal_text(n)[0] != '+',
        digits_value(decimal_text(n)) == n,
    decreases n,
{
    let t = decimal_text(n);
    if n < 10 {
        assert(t.drop_last() =~= Seq::<char>::empty());
        assert(ascii(t) =~= decimal(n));
        assert(t.last() == digit_char(n));
        assert((digit_char(n) as u32 - 48) as nat == n);
        assert(digits_value(Seq::<char>::empty()) == 0);
    } else {
        lemma_decimal_text(n / 10);
        let u = decimal_text(n / 10);
        assert(t.drop_last() =~= u);
        assert(ascii(t) =~= ascii(u).push((48 + n % 10) as u8));
        assert(t[0] == u[0]);
        assert(t.last() == digit_char(n % 10));
        assert((digit_char(n % 10) as u32 - 48) as nat == n % 10);
        assert(digits_value(t) == digits_value(u) * 10 + n % 10);
        assert((n / 10) * 10 + n % 10 == n);
        assert forall|i: int| 0 <= i < t.len() implies is_digit(#[trigger] t[i]) by {
            if i < u.len() {
                assert(t[i] == u[i]);
            }
        }
    }
}

/// The length that an `UPDATE_VAULT` header announces, echoed by the device
/// as `VAULT:<len>`, is read back as the blob's length.
pub proof fn lemma_echoed_length_accepted(blob: Seq<u8>)
    requires
        MIN_BLOB_LEN <= blob.len() <= usize::MAX,
    ensures
        framed("UPDATE_VAULT:"@, blob) == ascii("UPDATE_VAULT:"@ + decimal_text(blob.len())) + seq![
            NEWLINE,
        ] + blob,
        vault_header_spec("VAULT:"@ + decimal_text(blob.len())) == Ok::<usize, VaultError>(
            blob.len() as usize,
        ),
{
    let n = blob.len();
    lemma_decimal_text(n);
    let t = decimal_text(n);
    assert(ascii("UPDATE_VAULT:"@ + t) =~= ascii("UPDATE_VAULT:"@) + ascii(t));
    reveal_strlit("VAULT:");
    let line = "VAULT:"@ + t;
    assert(line.subrange(0, 6) =~= "VAULT:"@);
    assert(line.subrange(6, line.len() as int) =~= t);
}

} // verus!
