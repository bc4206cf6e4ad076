use vstd::prelude::*;
use vstd::string::*;
use vstd::utf8::*;
use crate::error::{ContractError, Failure};

verus! {

broadcast use vstd::utf8::group_utf8_lib;

/// Fewest bytes a name body or a subdomain label may have.
pub const MIN_NAME_LENGTH: u64 = 3;

/// Most bytes a name body or a subdomain label may have.
pub const MAX_NAME_LENGTH: u64 = 64;

/// The suffix every top-level name carries in the ledger.
pub const SUFFIX: &'static str = ".arch";

/// The suffix, character by character.
pub open spec fn suffix() -> Seq<char> {
    seq!['.', 'a', 'r', 'c', 'h']
}

/// `s` ends with the registry suffix.
pub open spec fn has_suffix(s: Seq<char>) -> bool {
    s.len() >= 5 && s.subrange(s.len() - 5, s.len() as int) == suffix()
}

/// What is left of a suffixed name once the suffix is taken off.
pub open spec fn body_of(s: Seq<char>) -> Seq<char> {
    s.subrange(0, s.len() - 5)
}

/// Number of bytes of the UTF-8 encoding of `s`.
pub open spec fn byte_len(s: Seq<char>) -> nat {
    encode_utf8(s).len()
}

/// The characters allowed in a name: `a-z`, `0-9`, `-` and `_`.
pub open spec fn is_name_char(c: char) -> bool {
    ('a' <= c && c <= 'z') || ('0' <= c && c <= '9') || c == '-' || c == '_'
}

/// The first character of `s` at or after position `i` that is not allowed in a name.
pub open spec fn first_invalid_from(s: Seq<char>, i: int) -> Option<char>
    decreases s.len() - i,
{
    if i < 0 || i >= s.len() {
        None
    } else if !is_name_char(s[i]) {
        Some(s[i])
    } else {
        first_invalid_from(s, i + 1)
    }
}

/// The first character of `s` that is not allowed in a name.
pub open spec fn first_invalid(s: Seq<char>) -> Option<char> {
    first_invalid_from(s, 0)
}

/// Why a label of `label_bytes` bytes is refused, if it is: length first, then
/// characters. `length` is the figure the error reports.
pub open spec fn label_failure(label: Seq<char>, label_bytes: nat, length: u64) -> Option<Failure> {
    if label_bytes < MIN_NAME_LENGTH {
        Some(Failure::NameTooShort { length, min_length: MIN_NAME_LENGTH })
    } else if label_bytes > MAX_NAME_LENGTH {
        Some(Failure::NameTooLong { length, max_length: MAX_NAME_LENGTH })
    } else {
        match first_invalid(label) {
            Some(c) => Some(Failure::InvalidCharacter { c }),
            None => None,
        }
    }
}

/// Why a suffixed top-level name is refused, if it is. The reported length
/// is that of the whole name, suffix included.
pub open spec fn name_failure(name: Seq<char>) -> Option<Failure> {
    label_failure(body_of(name), byte_len(body_of(name)), byte_len(name) as u64)
}

/// Why a subdomain label is refused, if it is.
pub open spec fn subdomain_failure(label: Seq<char>) -> Option<Failure> {
    label_failure(label, byte_len(label), byte_len(label) as u64)
}

/// A label that passes the length and character rules.
pub open spec fn valid_label(label: Seq<char>) -> bool {
    subdomain_failure(label) is None
}

/// A suffixed top-level name whose body passes the rules.
pub open spec fn valid_name(name: Seq<char>) -> bool {
    has_suffix(name) && name_failure(name) is None
}

pub proof fn lemma_encode_concat(a: Seq<char>, b: Seq<char>)
    ensures
        encode_utf8(a + b) == encode_utf8(a) + encode_utf8(b),
    decreases a.len(),
{
    if a.len() == 0 {
        assert(a + b =~= b);
        assert(encode_utf8(a) + encode_utf8(b) =~= encode_utf8(b));
    } else {
        assert((a + b).drop_first() =~= a.drop_first() + b);
        assert((a + b)[0] == a[0]);
        lemma_encode_concat(a.drop_first(), b);
        let head = encode_scalar(a[0] as u32);
        assert(head + (encode_utf8(a.drop_first()) + encode_utf8(b)) =~= (head + encode_utf8(
            a.drop_first(),
        )) + encode_utf8(b));
    }
}

pub proof fn lemma_suffix_bytes()
    ensures
        is_ascii_chars(suffix()),
        byte_len(suffix()) == 5,
{
    assert(is_ascii_chars(suffix()));
}

/// A suffixed name has five bytes more than its body.
pub proof fn lemma_body_bytes(name: Seq<char>)
    requires
        has_suffix(name),
    ensures
        byte_len(name) == byte_len(body_of(name)) + 5,
{
    assert(name =~= body_of(name) + suffix());
    lemma_encode_concat(body_of(name), suffix());
    lemma_suffix_bytes();
}

/// The characters a name may not hold.
fn invalid_char(c: char) -> (r: bool)
    ensures
        r == !is_name_char(c),
{
    let is_valid = ('0' <= c && c <= '9') || ('a' <= c && c <= 'z') || (c == '-' || c == '_');
    !is_valid
}

/// The first character among the first `end` characters of `s` that a name may not hold.
fn find_invalid(s: &str, end: usize) -> (r: Option<char>)
    requires
        end <= s@.len(),
    ensures
        r == first_invalid(s@.subrange(0, end as int)),
{
    let ghost label = s@.subrange(0, end as int);
    let mut i: usize = 0;
    while i < end
        invariant
            i <= end,
            end <= s@.len(),
            label == s@.subrange(0, end as int),
            first_invalid(label) == first_invalid_from(label, i as int),
        decreases end - i,
    {
        let c = s.get_char(i);
        if invalid_char(c) {
            return Some(c);
        }
        i = i + 1;
    }
    None
}

fn label_result(label: &str, end: usize, label_bytes: usize, length: u64) -> (r: Result<
    (),
    ContractError,
>)
    requires
        end <= label@.len(),
    ensures
        match r {
            Ok(()) => label_failure(label@.subrange(0, end as int), label_bytes as nat, length)
                is None,
            Err(e) => label_failure(label@.subrange(0, end as int), label_bytes as nat, length)
                == Some(e@),
        },
{
    if (label_bytes as u64) < MIN_NAME_LENGTH {
        Err(ContractError::NameTooShort { length, min_length: MIN_NAME_LENGTH })
    } else if (label_bytes as u64) > MAX_NAME_LENGTH {
        Err(ContractError::NameTooLong { length, max_length: MAX_NAME_LENGTH })
    } else {
        match find_invalid(label, end) {
            None => Ok(()),
            Some(c) => Err(ContractError::InvalidCharacter { c }),
        }
    }
}

/// Checks a suffixed top-level name: its body must have between 3 and 64
/// bytes, all of them `a-z`, `0-9`, `-` or `_`.
pub fn validate_name(name: &str) -> (r: Result<(), ContractError>)
    requires
        has_suffix(name@),
    ensures
        match r {
            Ok(()) => name_failure(name@) is None,
            Err(e) => name_failure(name@) == Some(e@),
        },
{
    let length = name.as_bytes().len();
    proof {
        lemma_body_bytes(name@);
    }
    let end = name.unicode_len() - 5;
    assert(body_of(name@) == name@.subrange(0, end as int));
    label_result(name, end, length - 5, length as u64)
}

/// Checks a subdomain label: between 3 and 64 bytes, all of them `a-z`,
/// `0-9`, `-` or `_`.
pub fn validate_subdomain(name: &str) -> (r: Result<(), ContractError>)
    ensures
        match r {
            Ok(()) => subdomain_failure(name@) is None,
            Err(e) => subdomain_failure(name@) == Some(e@),
        },
{
    let length = name.as_bytes().len();
    let end = name.unicode_len();
    assert(name@.subrange(0, end as int) =~= name@);
    label_result(name, end, length, length as u64)
}

/// The ledger key of `subdomain` under the suffixed name `domain`.
pub open spec fn subdomain_key(subdomain: Seq<char>, domain: Seq<char>) -> Seq<char> {
    subdomain + seq!['.'] + domain
}

/// Number of dots in `s`.
pub open spec fn dot_count(s: Seq<char>) -> nat
    decreases s.len(),
{
    if s.len() == 0 {
        0
    } else {
        dot_count(s.drop_last()) + if s.last() == '.' {
            1nat
        } else {
            0nat
        }
    }
}

/// Position of the first dot of `s`, or its length where it has none.
pub open spec fn first_dot(s: Seq<char>) -> int
    decreases s.len(),
{
    if s.len() == 0 {
        0
    } else if s[0] == '.' {
        0
    } else {
        1 + first_dot(s.drop_first())
    }
}

/// For a name of the form `<sub>.<label>.arch`, the pair (sub, label).
pub open spec fn subdomain_parts(name: Seq<char>) -> Option<(Seq<char>, Seq<char>)> {
    let body = body_of(name);
    if dot_count(body) == 1 {
        Some((body.subrange(0, first_dot(body)), body.subrange(first_dot(body) + 1, body.len() as int)))
    } else {
        None
    }
}

proof fn lemma_first_dot_bounds(s: Seq<char>)
    ensures
        0 <= first_dot(s) <= s.len(),
        first_dot(s) < s.len() ==> s[first_dot(s)] == '.',
        forall|j: int| 0 <= j < first_dot(s) ==> s[j] != '.',
    decreases s.len(),
{
    if s.len() > 0 && s[0] != '.' {
        lemma_first_dot_bounds(s.drop_first());
        assert forall|j: int| 0 <= j < first_dot(s) implies s[j] != '.' by {
            if j > 0 {
                assert(s[j] == s.drop_first()[j - 1]);
            }
        }
    }
}

/// Appends the registry suffix to `name`.
pub fn format_name(name: String) -> (r: String)
    ensures
        r@ == name@ + suffix(),
        has_suffix(r@),
        body_of(r@) == name@,
{
    proof {
        reveal_strlit(".arch");
    }
    let r = name.concat(".arch");
    assert(".arch"@ =~= suffix());
    assert(r@.subrange(r@.len() - 5, r@.len() as int) =~= suffix());
    assert(body_of(r@) =~= name@);
    r
}

/// Takes the registry suffix off `name`.
pub fn get_name_body(name: String) -> (r: String)
    requires
        has_suffix(name@),
    ensures
        r@ == body_of(name@),
{
    let n = name.unicode_len();
    name.as_str().substring_char(0, n - 5).to_owned()
}

/// Builds the ledger key of `subdomain` under the suffixed name `domain`.
pub fn make_subdomain_key(subdomain: &str, domain: &str) -> (r: String)
    ensures
        r@ == subdomain_key(subdomain@, domain@),
{
    proof {
        reveal_strlit(".");
    }
    let mut r = subdomain.to_owned();
    r.append(".");
    r.append(domain);
    assert(".".view() =~= seq!['.']);
    r
}

/// For a name of the form `<sub>.<label>.arch`, the labels `[sub, label]`;
/// for any other suffixed name, `None`.
pub fn get_subdomain_prefix(name: String) -> (r: Option<Vec<String>>)
    requires
        has_suffix(name@),
    ensures
        match subdomain_parts(name@) {
            Some((sub, label)) => r is Some && r->0@.len() == 2 && r->0@[0]@ == sub && r->0@[1]@
                == label,
            None => r is None,
        },
{
    let body = get_name_body(name);
    let ghost b = body@;
    let n = body.unicode_len();
    let mut dots: usize = 0;
    let mut dot_at: usize = n;
    let mut i: usize = 0;
    proof {
        lemma_first_dot_bounds(b);
        assert(b.subrange(0, 0) =~= Seq::<char>::empty());
    }
    while i < n
        invariant
            b == body@,
            n == b.len(),
            i <= n,
            dots == dot_count(b.subrange(0, i as int)),
            dots <= i,
            dots == 0 ==> dot_at == n && forall|j: int| 0 <= j < i ==> b[j] != '.',
            dots > 0 ==> dot_at == first_dot(b) && dot_at < i,
            0 <= first_dot(b) <= b.len(),
            first_dot(b) < b.len() ==> b[first_dot(b)] == '.',
            forall|j: int| 0 <= j < first_dot(b) ==> b[j] != '.',
        decreases n - i,
    {
        let c = body.as_str().get_char(i);
        assert(b.subrange(0, i + 1).drop_last() =~= b.subrange(0, i as int));
        if c == '.' {
            if dots == 0 {
                dot_at = i;
            }
            dots = dots + 1;
        }
        i = i + 1;
    }
    assert(b.subrange(0, n as int) =~= b);
    if dots == 1 {
        let first = body.as_str().substring_char(0, dot_at).to_owned();
        let second = body.as_str().substring_char(dot_at + 1, n).to_owned();
        let mut parts: Vec<String> = Vec::new();
        parts.push(first);
        parts.push(second);
        Some(parts)
    } else {
        None
    }
}

} // verus!
