//! Bot signatures: regular expressions with the name of the bot they reveal.

use vstd::prelude::*;

verus! {

#[verifier::external_type_specification]
#[verifier::external_body]
pub struct ExRegexError(regex::Error);

/// A regular expression and the name of the bot whose traffic it recognises.
#[derive(Clone, Debug)]
pub struct Signature {
    pub pattern: String,
    pub name: String,
}

/// Whether the regular expression `pattern` matches somewhere in `text`, or
/// `None` where `pattern` is not a valid regular expression.
pub uninterp spec fn regex_verdict(pattern: Seq<char>, text: Seq<char>) -> Option<bool>;

/// Relies on regex's `Regex::new`, which compiles `pattern` or reports why it
/// cannot, and `Regex::is_match`, which tells whether it matches anywhere in
/// `text`. Both depend on the two strings alone.
#[verifier::external_body]
fn regex_search(pattern: &str, text: &str) -> (r: Result<bool, regex::Error>)
    ensures
        match r {
            Ok(b) => regex_verdict(pattern@, text@) == Some(b),
            Err(_) => regex_verdict(pattern@, text@) is None,
        },
{
    match regex::Regex::new(pattern) {
        Ok(re) => Ok(re.is_match(text)),
        Err(e) => Err(e),
    }
}

/// A signature whose pattern does not compile.
#[derive(Debug)]
pub struct PatternError {
    pub pattern: String,
    pub cause: regex::Error,
}

/// The outcome of testing `text` against the signatures of `sigs` from index
/// `i` on, in order: the name of the first one that matches, nothing, or the
/// first invalid pattern met before any match.
pub open spec fn lookup_from(sigs: Seq<Signature>, text: Seq<char>, i: int) -> Result<
    Option<Seq<char>>,
    Seq<char>,
>
    decreases sigs.len() - i,
{
    if i < 0 || i >= sigs.len() {
        Ok(None)
    } else {
        match regex_verdict(sigs[i].pattern@, text) {
            None => Err(sigs[i].pattern@),
            Some(true) => Ok(Some(sigs[i].name@)),
            Some(false) => lookup_from(sigs, text, i + 1),
        }
    }
}

/// The first signature of `sigs` that matches `text` (see `lookup_from`).
pub open spec fn first_match(sigs: Seq<Signature>, text: Seq<char>) -> Result<
    Option<Seq<char>>,
    Seq<char>,
> {
    lookup_from(sigs, text, 0)
}

/// The name of the first signature of `sigs` whose pattern matches `text`.
pub fn find_signature(sigs: &Vec<Signature>, text: &str) -> (r: Result<Option<String>, PatternError>)
    ensures
        match r {
            Ok(Some(n)) => first_match(sigs@, text@) == Ok::<Option<Seq<char>>, Seq<char>>(
                Some(n@),
            ),
            Ok(None) => first_match(sigs@, text@) == Ok::<Option<Seq<char>>, Seq<char>>(None),
            Err(e) => first_match(sigs@, text@) == Err::<Option<Seq<char>>, Seq<char>>(
                e.pattern@,
            ),
        },
{
    let mut i: usize = 0;
    while i < sigs.len()
        invariant
            i <= sigs@.len(),
            first_match(sigs@, text@) == lookup_from(sigs@, text@, i as int),
        decreases sigs@.len() - i,
    {
        let sig = &sigs[i];
        match regex_search(sig.pattern.as_str(), text) {
            Ok(true) => {
                return Ok(Some(sig.name.clone()));
            },
            Ok(false) => {},
            Err(e) => {
                return Err(PatternError { pattern: sig.pattern.clone(), cause: e });
            },
        }
        i = i + 1;
    }
    Ok(None)
}

/// Reads a signature written as `pattern<TAB>name` on one line: the pattern
/// is all before the first tab, the name all after it. A line without a tab
/// holds no signature.
pub fn signature_from_line(line: &str) -> (r: Option<Signature>)
    ensures
        match r {
            None => forall|k: int| 0 <= k < line@.len() ==> line@[k] != '\t',
            Some(sig) => exists|k: int|
                0 <= k < line@.len() && line@[k] == '\t' && (forall|j: int|
                    0 <= j < k ==> line@[j] != '\t') && sig.pattern@ == line@.subrange(0, k)
                    && sig.name@ == line@.subrange(k + 1, line@.len() as int),
        },
{
    let n = line.unicode_len();
    let mut i: usize = 0;
    while i < n
        invariant
            n == line@.len(),
            i <= n,
            forall|j: int| 0 <= j < i ==> line@[j] != '\t',
        decreases n - i,
    {
        if line.get_char(i) == '\t' {
            let pattern = String::from_str(line.substring_char(0, i));
            let name = String::from_str(line.substring_char(i + 1, n));
            return Some(Signature { pattern, name });
        }
        i = i + 1;
    }
    None
}

} // verus!
