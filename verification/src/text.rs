use vstd::prelude::*;
use vstd::std_specs::iter::IteratorSpec;

verus! {

broadcast use vstd::string::group_string_axioms;

/// The characters of a text, one by one.
pub fn chars_of(input: &str) -> (v: Vec<char>)
    ensures
        v@ == input@,
{
    let mut v: Vec<char> = Vec::new();
    let mut chars = input.chars();
    loop
        invariant
            v@ + chars.remaining() == input@,
            chars.decrease() is Some,
        ensures
            v@ == input@,
        decreases chars.decrease()->0,
    {
        match chars.next() {
            Some(c) => {
                v.push(c);
            },
            None => {
                assert(v@ =~= input@);
                break;
            },
        }
    }
    v
}


/// Appends one character to a string.
#[verifier::external_body]
pub fn push_char(s: &mut String, c: char)
    ensures
        final(s)@ == old(s)@.push(c),
{
    s.push(c);
}

/// The characters from `start` to `end` as a string.
pub fn string_of(chars: &Vec<char>, start: usize, end: usize) -> (s: String)
    requires
        start <= end <= chars.len(),
    ensures
        s@ == chars@.subrange(start as int, end as int),
{
    let mut s = String::new();
    let mut i = start;
    while i < end
        invariant
            start <= i <= end <= chars.len(),
            s@ == chars@.subrange(start as int, i as int),
        decreases end - i,
    {
        push_char(&mut s, chars[i]);
        i += 1;
        proof {
            assert(s@ =~= chars@.subrange(start as int, i as int));
        }
    }
    s
}

/// The message of `nom` for a parse that failed with the text `rest` left:
/// an expected token missing where `trailing` is false (error kind `Tag`),
/// text left over after a complete parse where it is true (error kind
/// `Eof`).
pub open spec fn nom_error_text(rest: Seq<char>, trailing: bool) -> Seq<char> {
    "Parsing Error: Error { input: "@ + debug_quoted(rest) + ", code: "@ + (if trailing {
        "Eof"@
    } else {
        "Tag"@
    }) + " }"@
}

/// The text that `nom` displays for its error `Err::Error` at the input
/// `rest`, of kind `ErrorKind::Eof` where `trailing` is true and
/// `ErrorKind::Tag` where it is false: `Display` of `Err::Error` writes
/// `Parsing Error: ` and the derived `Debug` of `error::Error`, whose
/// input, a string slice, is written by `{:?}`.
#[verifier::external_body]
pub fn nom_error_message(rest: &str, trailing: bool) -> (m: String)
    ensures
        m@ == nom_error_text(rest@, trailing),
{
    let kind = if trailing { nom::error::ErrorKind::Eof } else { nom::error::ErrorKind::Tag };
    nom::Err::Error(nom::error::Error::new(rest, kind)).to_string()
}


/// How a string is written by `{:?}`: in double quotes, with escapes.
pub uninterp spec fn debug_quoted(s: Seq<char>) -> Seq<char>;

/// `{:?}` applied to a string slice, as std's `Debug` for `str` writes it.
/// What the quoted text is, is not stated: only that it depends on the
/// characters of the string alone.
#[verifier::external_body]
pub fn debug_str(s: &str) -> (d: String)
    ensures
        d@ == debug_quoted(s@),
{
    format!("{:?}", s)
}

} // verus!
