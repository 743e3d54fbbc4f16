//! Emoji substitution in prose: a `:shortcode:` run whose code the emoji
//! table knows is replaced by the emoji itself; everything else is kept.
//! The closing colon may also be the end of the text.

use vstd::prelude::*;

verus! {

broadcast use {vstd::std_specs::vec::group_vec_axioms, vstd::seq::group_seq_axioms};

/// What `char::is_alphanumeric` returns; the Unicode tables decide it, so
/// it is only named here.
pub uninterp spec fn char_alphanumeric(c: char) -> bool;

/// Relies on char::is_alphanumeric: the result depends on the character
/// alone (the Unicode Alphabetic property plus the numeric categories).
#[verifier::external_body]
fn is_alphanumeric_char(c: char) -> (r: bool)
    ensures
        r == char_alphanumeric(c),
{
    c.is_alphanumeric()
}

/// What `emojis::get_by_shortcode` answers for a shortcode; the crate's
/// emoji table decides it, so it is only named here.
pub uninterp spec fn emoji_for_shortcode(s: Seq<char>) -> Option<Seq<char>>;

/// Relies on emojis::get_by_shortcode and emojis::Emoji::as_str: the
/// looked-up emoji depends on the shortcode alone.
#[verifier::external_body]
fn emoji_by_shortcode(s: &str) -> (r: Option<String>)
    ensures
        match r {
            Some(e) => emoji_for_shortcode(s@) == Some(e@),
            None => emoji_for_shortcode(s@) is None,
        },
{
    match emojis::get_by_shortcode(s) {
        Some(e) => Some(e.as_str().to_string()),
        None => None,
    }
}

/// Relies on str::chars and Iterator::collect: the characters of the
/// string, in order.
#[verifier::external_body]
pub fn str_chars(s: &str) -> (r: Vec<char>)
    ensures
        r@ == s@,
{
    s.chars().collect()
}

/// Relies on String's FromIterator over char: the string holding exactly
/// these characters, in order.
#[verifier::external_body]
pub fn chars_to_string(v: &Vec<char>) -> (r: String)
    ensures
        r@ == v@,
{
    v.iter().collect()
}

/// Whether a character may be part of a shortcode.
pub open spec fn is_code_char(c: char) -> bool {
    char_alphanumeric(c) || c == '_'
}

/// The end of the shortcode-character run starting at `i`.
pub open spec fn code_end(s: Seq<char>, i: int) -> int
    decreases s.len() - i,
    when 0 <= i <= s.len()
{
    if i == s.len() {
        i
    } else if is_code_char(s[i]) {
        code_end(s, i + 1)
    } else {
        i
    }
}

pub proof fn lemma_code_end(s: Seq<char>, i: int)
    requires
        0 <= i <= s.len(),
    ensures
        i <= code_end(s, i) <= s.len(),
        forall|t: int| i <= t < code_end(s, i) ==> is_code_char(s[t]),
        code_end(s, i) < s.len() ==> !is_code_char(s[code_end(s, i)]),
    decreases s.len() - i,
{
    if i < s.len() && is_code_char(s[i]) {
        lemma_code_end(s, i + 1);
    }
}

/// The emoji substitution over the remaining text from position `i`: at a
/// colon, the following shortcode-character run is looked up if it is
/// closed by a colon or by the end of the text; on a hit the whole
/// `:code:` run becomes the emoji, otherwise the colon is kept and the
/// scan goes on behind it.
pub open spec fn emoji_expand(s: Seq<char>, i: int) -> Seq<char>
    decreases s.len() - i,
    when 0 <= i <= s.len()
    via emoji_expand_decreases
{
    if i >= s.len() {
        Seq::empty()
    } else if s[i] == ':' {
        let j = code_end(s, i + 1);
        let code = s.subrange(i + 1, j);
        let closed = j == s.len() || s[j] == ':';
        if closed && emoji_for_shortcode(code) is Some {
            emoji_for_shortcode(code)->0 + emoji_expand(
                s,
                if j == s.len() {
                    j
                } else {
                    j + 1
                },
            )
        } else {
            seq![':'] + emoji_expand(s, i + 1)
        }
    } else {
        seq![s[i]] + emoji_expand(s, i + 1)
    }
}

#[via_fn]
proof fn emoji_expand_decreases(s: Seq<char>, i: int) {
    if 0 <= i < s.len() && s[i] == ':' {
        lemma_code_end(s, i + 1);
    }
}

/// Replaces every closed `:shortcode:` run that the emoji table knows by
/// its emoji and keeps the rest of the text unchanged.
#[verifier::loop_isolation(false)]
pub fn fmt_emoji(text: &str) -> (r: String)
    ensures
        r@ == emoji_expand(text@, 0),
{
    let chars = str_chars(text);
    let ghost s = text@;
    let n = chars.len();
    let mut out: Vec<char> = Vec::new();
    let mut i: usize = 0;
    while i < n
        invariant
            n == s.len(),
            chars@ == s,
            i <= n,
            emoji_expand(s, 0) == out@ + emoji_expand(s, i as int),
        decreases n - i,
    {
        let c = chars[i];
        if c == ':' {
            proof {
                lemma_code_end(s, i + 1);
            }
            let mut j: usize = i + 1;
            while j < n && is_code_char_exec(chars[j])
                invariant
                    i + 1 <= j <= n,
                    n == s.len(),
                    chars@ == s,
                    forall|t: int| i + 1 <= t < j ==> is_code_char(s[t]),
                    code_end(s, i + 1) == code_end(s, j as int),
                decreases n - j,
            {
                j += 1;
            }
            proof {
                assert(code_end(s, i + 1) == j);
            }
            let closed = j == n || chars[j] == ':';
            let mut hit: Option<String> = None;
            if closed {
                let mut codev: Vec<char> = Vec::new();
                let mut t: usize = i + 1;
                while t < j
                    invariant
                        i + 1 <= t <= j <= n,
                        chars@ == s,
                        codev@ =~= s.subrange(i + 1, t as int),
                    decreases j - t,
                {
                    codev.push(chars[t]);
                    proof {
                        assert(codev@ =~= s.subrange(i + 1, t + 1));
                    }
                    t += 1;
                }
                let code = chars_to_string(&codev);
                hit = emoji_by_shortcode(code.as_str());
            }
            match hit {
                Some(e) => {
                    let mut echars = str_chars(e.as_str());
                    let ghost ev = echars@;
                    out.append(&mut echars);
                    let next = if j == n {
                        j
                    } else {
                        j + 1
                    };
                    proof {
                        assert(emoji_expand(s, i as int) == ev + emoji_expand(
                            s,
                            next as int,
                        ));
                    }
                    i = next;
                },
                None => {
                    out.push(c);
                    proof {
                        assert(emoji_expand(s, i as int) == seq![':'] + emoji_expand(
                            s,
                            i + 1,
                        ));
                    }
                    i += 1;
                },
            }
        } else {
            out.push(c);
            proof {
                assert(emoji_expand(s, i as int) == seq![s[i as int]] + emoji_expand(
                    s,
                    i + 1,
                ));
            }
            i += 1;
        }
    }
    proof {
        assert(emoji_expand(s, n as int) =~= Seq::<char>::empty());
        assert(emoji_expand(s, 0) =~= out@);
    }
    chars_to_string(&out)
}

/// Whether a character may be part of a shortcode.
fn is_code_char_exec(c: char) -> (r: bool)
    ensures
        r == is_code_char(c),
{
    is_alphanumeric_char(c) || c == '_'
}

} // verus!
