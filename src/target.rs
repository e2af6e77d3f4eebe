//! Capture targets, their canonical text and the file names derived from it.

use vstd::prelude::*;
use vstd::string::*;

verus! {

/// One capture destination: a network address (`host:port`) or a URL.
#[derive(Debug)]
pub enum Target {
    Address(String),
    Url(String),
}

impl Target {
    /// The canonical text of the target.
    pub open spec fn text(&self) -> Seq<char> {
        match self {
            Target::Address(s) => s@,
            Target::Url(s) => s@,
        }
    }

    /// The canonical text of the target, used in logs and reports.
    pub fn to_text(&self) -> (r: String)
        ensures
            r@ == self.text(),
    {
        match self {
            Target::Address(s) => s.clone(),
            Target::Url(s) => s.clone(),
        }
    }
}

/// Characters that are kept as they are in a file name.
pub open spec fn is_safe_char(c: char) -> bool {
    ('a' <= c && c <= 'z') || ('A' <= c && c <= 'Z') || ('0' <= c && c <= '9')
}

/// A safe character stays; any other becomes `_`.
pub open spec fn safe_char(c: char) -> char {
    if is_safe_char(c) {
        c
    } else {
        '_'
    }
}

/// The file-system-safe form of a text, character by character.
pub open spec fn filename_of(s: Seq<char>) -> Seq<char> {
    Seq::new(s.len(), |i: int| safe_char(s[i]))
}

/// Relies on `String::push`: appends the character at the end.
#[verifier::external_body]
fn push_char(s: &mut String, c: char)
    ensures
        final(s)@ == old(s)@.push(c),
{
    s.push(c)
}

/// The file name (without extension) under which a target's capture is
/// saved: its canonical text with every character other than an ASCII
/// letter or digit replaced by `_`.
pub fn target_to_filename(target: &Target) -> (r: String)
    ensures
        r@ == filename_of(target.text()),
{
    let text: &str = match target {
        Target::Address(s) => s.as_str(),
        Target::Url(s) => s.as_str(),
    };
    let n = text.unicode_len();
    let mut out = String::new();
    let mut i: usize = 0;
    while i < n
        invariant
            n == text@.len(),
            text@ == target.text(),
            i <= n,
            out@ == filename_of(text@.subrange(0, i as int)),
        decreases n - i,
    {
        let c = text.get_char(i);
        let safe = ('a' <= c && c <= 'z') || ('A' <= c && c <= 'Z') || ('0' <= c && c <= '9');
        if safe {
            push_char(&mut out, c);
        } else {
            push_char(&mut out, '_');
        }
        assert(out@ =~= filename_of(text@.subrange(0, i + 1)));
        i = i + 1;
    }
    assert(text@.subrange(0, n as int) =~= text@);
    out
}

/// The path of a capture relative to the output directory:
/// `<protocol>/<file name>.png`.
pub open spec fn output_path(protocol: Seq<char>, t: Seq<char>) -> Seq<char> {
    protocol + "/"@ + filename_of(t) + ".png"@
}

/// Builds the relative output path of a target's capture under the
/// directory named after its protocol.
pub fn output_file(protocol: &str, target: &Target) -> (r: String)
    ensures
        r@ == output_path(protocol@, target.text()),
{
    let name = target_to_filename(target);
    let mut path = String::from_str(protocol);
    path.append("/");
    path.append(name.as_str());
    path.append(".png");
    path
}

/// Equal texts give equal file names, and two texts of different length,
/// or that differ in a letter or digit at one position, give different
/// file names: so targets that differ only by port, scheme or a path
/// segment get distinct files.
pub proof fn lemma_filename_distinct(s1: Seq<char>, s2: Seq<char>)
    ensures
        s1 == s2 ==> filename_of(s1) == filename_of(s2),
        s1.len() != s2.len() ==> filename_of(s1) != filename_of(s2),
        forall|i: int|
            0 <= i < s1.len() && i < s2.len() && is_safe_char(s1[i]) && is_safe_char(s2[i])
                && s1[i] != s2[i] ==> filename_of(s1) != filename_of(s2),
{
    if s1.len() != s2.len() {
        assert(filename_of(s1).len() != filename_of(s2).len());
    }
    assert forall|i: int|
        0 <= i < s1.len() && i < s2.len() && is_safe_char(s1[i]) && is_safe_char(s2[i]) && s1[i]
            != s2[i] implies filename_of(s1) != filename_of(s2) by {
        assert(filename_of(s1)[i] != filename_of(s2)[i]);
    }
}

} // verus!
