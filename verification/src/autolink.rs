//! The autolinker: prose is split into whitespace-separated tokens, every
//! token that exactly equals some tree entry's short name is rewritten into
//! a markdown-style link to that entry's canonical URL (first entry found
//! in tree order wins, and a token is rewritten at most once), and the
//! tokens are put back together with single spaces. Newlines are protected
//! by a placeholder token around the tokenization so line breaks survive.

use vstd::prelude::*;
use vstd::string::StringExecFns;

use crate::ast::Ast;
use crate::emoji::chars_to_string;
use crate::emoji::str_chars;
use crate::tree::CppItem;
use crate::tree::Namespace;
use crate::tree::entries_inv;
use crate::tree::entry_inv;
use crate::tree::item_entity;
use crate::tree::item_name;
use crate::tree::item_size;
use crate::tree::lemma_item_size_le;
use crate::tree::spec_item_name;
use crate::tree::url_of_entity;
use crate::url::joined;

verus! {

broadcast use {vstd::std_specs::vec::group_vec_axioms, vstd::seq::group_seq_axioms};

/// The characters Rust's `char::is_whitespace` accepts: the Unicode
/// White_Space set, written out.
pub open spec fn is_ws(c: char) -> bool {
    ||| c == ' '
    ||| c == '\t'
    ||| c == '\n'
    ||| c == '\r'
    ||| c == '\u{000B}'
    ||| c == '\u{000C}'
    ||| c == '\u{0085}'
    ||| c == '\u{00A0}'
    ||| c == '\u{1680}'
    ||| (0x2000 <= (c as u32) && (c as u32) <= 0x200A)
    ||| c == '\u{2028}'
    ||| c == '\u{2029}'
    ||| c == '\u{202F}'
    ||| c == '\u{205F}'
    ||| c == '\u{3000}'
}

fn is_ws_exec(c: char) -> (r: bool)
    ensures
        r == is_ws(c),
{
    c == ' ' || c == '\t' || c == '\n' || c == '\r' || c == '\u{000B}' || c == '\u{000C}'
        || c == '\u{0085}' || c == '\u{00A0}' || c == '\u{1680}' || ((c as u32) >= 0x2000 && (
    c as u32) <= 0x200A) || c == '\u{2028}' || c == '\u{2029}' || c == '\u{202F}' || c
        == '\u{205F}' || c == '\u{3000}'
}

/// Every occurrence of `pat` in `s`, scanned left to right without
/// overlap, replaced by `rep`.
pub open spec fn replace_all(s: Seq<char>, pat: Seq<char>, rep: Seq<char>) -> Seq<char>
    decreases s.len(),
    when pat.len() > 0
{
    if s.len() == 0 {
        s
    } else if pat.len() <= s.len() && s.take(pat.len() as int) == pat {
        rep + replace_all(s.skip(pat.len() as int), pat, rep)
    } else {
        seq![s[0]] + replace_all(s.drop_first(), pat, rep)
    }
}

/// The end of the token starting at `i`: the first whitespace at or after
/// it, or the end of the text.
pub open spec fn tok_end(s: Seq<char>, i: int) -> int
    decreases s.len() - i,
    when 0 <= i <= s.len()
{
    if i == s.len() {
        i
    } else if is_ws(s[i]) {
        i
    } else {
        tok_end(s, i + 1)
    }
}

pub proof fn lemma_tok_end(s: Seq<char>, i: int)
    requires
        0 <= i <= s.len(),
    ensures
        i <= tok_end(s, i) <= s.len(),
        forall|t: int| i <= t < tok_end(s, i) ==> !is_ws(s[t]),
        tok_end(s, i) < s.len() ==> is_ws(s[tok_end(s, i)]),
    decreases s.len() - i,
{
    if i < s.len() && !is_ws(s[i]) {
        lemma_tok_end(s, i + 1);
    }
}

/// The nonempty whitespace-separated tokens of `s` from position `i` on.
pub open spec fn split_from(s: Seq<char>, i: int) -> Seq<Seq<char>>
    decreases s.len() - i,
    when 0 <= i <= s.len()
    via split_from_decreases
{
    if i >= s.len() {
        Seq::empty()
    } else if is_ws(s[i]) {
        split_from(s, i + 1)
    } else {
        seq![s.subrange(i, tok_end(s, i))] + split_from(s, tok_end(s, i))
    }
}

#[via_fn]
proof fn split_from_decreases(s: Seq<char>, i: int) {
    if 0 <= i < s.len() && !is_ws(s[i]) {
        lemma_tok_end(s, i);
    }
}

/// Tokens joined by single spaces.
pub open spec fn join_sp(ts: Seq<Seq<char>>) -> Seq<char>
    decreases ts.len(),
{
    if ts.len() == 0 {
        Seq::empty()
    } else if ts.len() == 1 {
        ts[0]
    } else {
        join_sp(ts.drop_last()) + seq![' '] + ts.last()
    }
}

/// The markdown-style link a matched token is rewritten into.
pub open spec fn link_text(name: Seq<char>, chain: Seq<Seq<char>>) -> Seq<char> {
    seq!['['] + name + seq![']', '('] + joined(chain) + seq![')']
}

/// One marking step over the word list: every still-unmatched word equal
/// to the entry's short name becomes the link to the entry, marked so that
/// later entries cannot rewrite it; a namespace then lets its children
/// mark the same list.
pub open spec fn mark_item(ast: &Ast, it: CppItem, ws: Seq<(bool, Seq<char>)>) -> Seq<
    (bool, Seq<char>),
>
    decreases it, 1nat,
{
    let nm = spec_item_name(ast, it);
    let lk = link_text(nm, ast.chain_names(item_entity(it)));
    let ws2 = Seq::new(
        ws.len(),
        |i: int|
            if !ws[i].0 && ws[i].1 == nm {
                (true, lk)
            } else {
                ws[i]
            },
    );
    match it {
        CppItem::Namespace(ns) => mark_list(ast, ns.entries@, ws2),
        _ => ws2,
    }
}

/// The whole tree marks the word list, entry after entry in tree order.
pub open spec fn mark_list(ast: &Ast, es: Seq<CppItem>, ws: Seq<(bool, Seq<char>)>) -> Seq<
    (bool, Seq<char>),
>
    decreases es, 0nat,
{
    if es.len() == 0 {
        ws
    } else {
        mark_list(ast, es.drop_first(), mark_item(ast, es[0], ws))
    }
}

/// The newline placeholder, padded with spaces so it becomes a token of
/// its own.
pub open spec fn br_padded() -> Seq<char> {
    seq![' ', '<', '<', 'b', 'r', '>', '>', ' ']
}

/// The bare newline placeholder token.
pub open spec fn br_token() -> Seq<char> {
    seq!['<', '<', 'b', 'r', '>', '>']
}

/// What the autolinker returns for the given text against the given scope:
/// newlines are protected, the text is split on whitespace, the tree marks
/// the tokens, and the tokens are rejoined with single spaces before the
/// newlines are restored.
pub open spec fn autolinked(ast: &Ast, es: Seq<CppItem>, text: Seq<char>) -> Seq<char> {
    let protected = replace_all(text, seq!['\n'], br_padded());
    let toks = split_from(protected, 0);
    let words = Seq::new(toks.len(), |i: int| (false, toks[i]));
    let marked = mark_list(ast, es, words);
    let rejoined = join_sp(Seq::new(marked.len(), |i: int| marked[i].1));
    replace_all(rejoined, br_token(), seq!['\n'])
}

/// A word of the token list, either still plain or already rewritten into
/// a link.
pub enum Word {
    Unmatched(Vec<char>),
    Matched(Vec<char>),
}

pub open spec fn word_model(w: Word) -> (bool, Seq<char>) {
    match w {
        Word::Unmatched(v) => (false, v@),
        Word::Matched(v) => (true, v@),
    }
}

pub open spec fn words_model(ws: Seq<Word>) -> Seq<(bool, Seq<char>)> {
    Seq::new(ws.len(), |i: int| word_model(ws[i]))
}

fn vec_char_eq(a: &Vec<char>, b: &Vec<char>) -> (r: bool)
    ensures
        r == (a@ == b@),
{
    if a.len() != b.len() {
        proof {
            assert(a@.len() != b@.len());
        }
        return false;
    }
    let mut i: usize = 0;
    while i < a.len()
        invariant
            i <= a@.len(),
            a@.len() == b@.len(),
            forall|t: int| 0 <= t < i ==> a@[t] == b@[t],
        decreases a@.len() - i,
    {
        if a[i] != b[i] {
            return false;
        }
        i += 1;
    }
    proof {
        assert(a@ =~= b@);
    }
    true
}

/// Replaces every occurrence of `pat` (scanned left to right, without
/// overlap) by `rep`.
#[verifier::loop_isolation(false)]
fn replace_all_exec(s: &Vec<char>, pat: &Vec<char>, rep: &Vec<char>) -> (r: Vec<char>)
    requires
        pat@.len() > 0,
    ensures
        r@ == replace_all(s@, pat@, rep@),
{
    let mut out: Vec<char> = Vec::new();
    let mut i: usize = 0;
    proof {
        assert(s@.skip(0) =~= s@);
    }
    while i < s.len()
        invariant
            i <= s@.len(),
            replace_all(s@, pat@, rep@) == out@ + replace_all(s@.skip(i as int), pat@, rep@),
        decreases s@.len() - i,
    {
        let ghost rest = s@.skip(i as int);
        let mut matches_here = pat.len() <= s.len() - i;
        if matches_here {
            let mut t: usize = 0;
            while t < pat.len() && matches_here
                invariant
                    t <= pat@.len(),
                    i + pat@.len() <= s@.len(),
                    matches_here ==> forall|u: int| 0 <= u < t ==> s@[i + u] == pat@[u],
                    !matches_here ==> exists|u: int|
                        0 <= u < pat@.len() && s@[i + u] != (#[trigger] pat@[u]),
                decreases pat@.len() - t + (if matches_here {
                    1int
                } else {
                    0int
                }),
            {
                if s[i + t] != pat[t] {
                    proof {
                        assert(s@[i + t] != pat@[t as int]);
                    }
                    matches_here = false;
                } else {
                    t += 1;
                }
            }
            proof {
                if matches_here {
                    assert(t == pat@.len());
                    assert(rest.take(pat@.len() as int) =~= pat@);
                }
            }
        }
        if matches_here {
            let mut rr = rep.clone();
            proof {
                assert(rr@ =~= rep@);
            }
            out.append(&mut rr);
            proof {
                assert(rest.skip(pat@.len() as int) =~= s@.skip(i + pat@.len()));
            }
            i += pat.len();
        } else {
            proof {
                if pat@.len() <= rest.len() && rest.take(pat@.len() as int) == pat@ {
                    assert(i + pat@.len() <= s@.len());
                    let u = choose|u: int|
                        0 <= u < pat@.len() && s@[i + u] != (#[trigger] pat@[u]);
                    assert(rest.take(pat@.len() as int)[u] == s@[i + u]);
                    assert(false);
                }
                assert(rest.drop_first() =~= s@.skip(i + 1));
            }
            out.push(s[i]);
            i += 1;
        }
    }
    proof {
        assert(s@.skip(s@.len() as int) =~= Seq::<char>::empty());
    }
    out
}

fn clone_chars(v: &Vec<char>) -> (r: Vec<char>)
    ensures
        r@ == v@,
{
    let mut r: Vec<char> = Vec::new();
    let mut i: usize = 0;
    while i < v.len()
        invariant
            i <= v@.len(),
            r@ =~= v@.take(i as int),
        decreases v@.len() - i,
    {
        r.push(v[i]);
        proof {
            assert(r@ =~= v@.take(i + 1));
        }
        i += 1;
    }
    proof {
        assert(v@.take(v@.len() as int) =~= v@);
    }
    r
}

/// Marks the word list with one entry and, if it is a namespace, with its
/// whole subtree.
#[verifier::loop_isolation(false)]
fn fmt_autolinks_recursive(ast: &Ast, item: &CppItem, words: Vec<Word>) -> (r: Vec<Word>)
    requires
        ast.wf(),
        entry_inv(ast, *item),
    ensures
        words_model(r@) =~= mark_item(ast, *item, words_model(words@)),
    decreases item_size(*item), 0nat,
{
    let nm = item_name(ast, item);
    let nm_chars = str_chars(nm.as_str());
    let url = url_of_entity(ast, item.entity());
    let us = url.to_raw_string();
    let mut lk: Vec<char> = Vec::new();
    lk.push('[');
    let mut tmp = str_chars(nm.as_str());
    lk.append(&mut tmp);
    lk.push(']');
    lk.push('(');
    let mut tmp2 = str_chars(us.as_str());
    lk.append(&mut tmp2);
    lk.push(')');
    let ghost nmv = spec_item_name(ast, *item);
    let ghost lkv = link_text(nmv, ast.chain_names(item_entity(*item)));
    proof {
        assert(lk@ =~= lkv);
    }
    let ghost ws0 = words_model(words@);
    let ghost ws2 = Seq::new(
        ws0.len(),
        |i: int|
            if !ws0[i].0 && ws0[i].1 == nmv {
                (true, lkv)
            } else {
                ws0[i]
            },
    );
    let mut rest = words;
    let mut out: Vec<Word> = Vec::new();
    while rest.len() > 0
        invariant
            out@.len() + rest@.len() == ws0.len(),
            words_model(out@) =~= ws2.take(out@.len() as int),
            words_model(rest@) =~= ws0.skip(out@.len() as int),
            lk@ == lkv,
            nm_chars@ == nmv,
        decreases rest@.len(),
    {
        let ghost k = out@.len() as int;
        let ghost rest_before = rest@;
        let w = rest.remove(0);
        proof {
            assert(w == rest_before[0]);
            assert(words_model(rest_before)[0] == word_model(rest_before[0]));
            assert(words_model(rest_before)[0] == ws0.skip(k)[0]);
            assert(word_model(w) == ws0[k]);
        }
        match w {
            Word::Unmatched(v) => {
                if vec_char_eq(&v, &nm_chars) {
                    out.push(Word::Matched(clone_chars(&lk)));
                } else {
                    out.push(Word::Unmatched(v));
                }
            },
            Word::Matched(v) => {
                out.push(Word::Matched(v));
            },
        }
        proof {
            assert(words_model(out@) =~= ws2.take(k + 1));
            assert forall|t: int| 0 <= t < rest@.len() implies words_model(rest@)[t]
                == ws0.skip(k + 1)[t] by {
                assert(rest@[t] == rest_before[t + 1]);
                assert(words_model(rest_before)[t + 1] == word_model(rest_before[t + 1]));
                assert(words_model(rest_before)[t + 1] == ws0.skip(k)[t + 1]);
            }
            assert(words_model(rest@) =~= ws0.skip(k + 1));
        }
    }
    proof {
        assert(words_model(out@) =~= ws2);
    }
    match item {
        CppItem::Namespace(ns) => {
            let mut cur = out;
            let mut k: usize = 0;
            proof {
                assert(ns.entries@.skip(0) =~= ns.entries@);
            }
            while k < ns.entries.len()
                invariant
                    ast.wf(),
                    k <= ns.entries@.len(),
                    entries_inv(ast, ns.entries@),
                    mark_list(ast, ns.entries@, ws2) == mark_list(
                        ast,
                        ns.entries@.skip(k as int),
                        words_model(cur@),
                    ),
                decreases ns.entries@.len() - k,
            {
                proof {
                    assert(entry_inv(ast, ns.entries@[k as int]));
                    lemma_item_size_le(ns.entries@, k as int);
                    assert(ns.entries@.skip(k as int)[0] == ns.entries@[k as int]);
                }
                let ghost cur0 = words_model(cur@);
                cur = fmt_autolinks_recursive(ast, &ns.entries[k], cur);
                proof {
                    assert(ns.entries@.skip(k as int).drop_first() =~= ns.entries@.skip(
                        k + 1,
                    ));
                    assert(mark_list(ast, ns.entries@.skip(k as int), cur0) == mark_list(
                        ast,
                        ns.entries@.skip(k + 1),
                        mark_item(ast, ns.entries@[k as int], cur0),
                    ));
                }
                k += 1;
            }
            proof {
                assert(ns.entries@.skip(ns.entries@.len() as int) =~= Seq::<
                    CppItem,
                >::empty());
            }
            cur
        },
        _ => out,
    }
}

/// Splits protected text into still-unmatched whitespace-separated tokens.
#[verifier::loop_isolation(false)]
fn split_words(chars: &Vec<char>) -> (r: Vec<Word>)
    ensures
        words_model(r@) =~= Seq::new(
            split_from(chars@, 0).len(),
            |i: int| (false, split_from(chars@, 0)[i]),
        ),
{
    let ghost s = chars@;
    let n = chars.len();
    let mut r: Vec<Word> = Vec::new();
    let mut i: usize = 0;
    proof {
        assert(s.skip(0) =~= s);
    }
    while i < n
        invariant
            n == s.len(),
            chars@ == s,
            i <= n,
            forall|t: int| 0 <= t < r@.len() ==> (#[trigger] r@[t]) is Unmatched,
            split_from(s, 0) =~= Seq::new(r@.len(), |t: int| word_model(r@[t]).1)
                + split_from(s, i as int),
        decreases n - i,
    {
        if is_ws_exec(chars[i]) {
            i += 1;
        } else {
            proof {
                lemma_tok_end(s, i as int);
            }
            let mut j: usize = i;
            while j < n && !is_ws_exec(chars[j])
                invariant
                    i <= j <= n,
                    n == s.len(),
                    chars@ == s,
                    forall|t: int| i <= t < j ==> !is_ws(s[t]),
                    tok_end(s, i as int) == tok_end(s, j as int),
                decreases n - j,
            {
                j += 1;
            }
            proof {
                assert(tok_end(s, i as int) == j);
            }
            let mut tok: Vec<char> = Vec::new();
            let mut t: usize = i;
            while t < j
                invariant
                    i <= t <= j <= n,
                    chars@ == s,
                    tok@ =~= s.subrange(i as int, t as int),
                decreases j - t,
            {
                tok.push(chars[t]);
                proof {
                    assert(tok@ =~= s.subrange(i as int, t + 1));
                }
                t += 1;
            }
            r.push(Word::Unmatched(tok));
            proof {
                assert(Seq::new(r@.len(), |t2: int| word_model(r@[t2]).1) =~= Seq::new(
                    (r@.len() - 1) as nat,
                    |t2: int| word_model(r@[t2]).1,
                ).push(s.subrange(i as int, j as int)));
            }
            i = j;
        }
    }
    proof {
        assert(split_from(s, n as int) =~= Seq::<Seq<char>>::empty());
        assert(words_model(r@) =~= Seq::new(
            split_from(s, 0).len(),
            |i2: int| (false, split_from(s, 0)[i2]),
        ));
    }
    r
}

/// Joins the word contents with single spaces.
#[verifier::loop_isolation(false)]
fn join_words(words: &Vec<Word>) -> (r: Vec<char>)
    ensures
        r@ == join_sp(Seq::new(words@.len(), |i: int| word_model(words@[i]).1)),
{
    let ghost conts = Seq::new(words@.len(), |i: int| word_model(words@[i]).1);
    let mut out: Vec<char> = Vec::new();
    let mut k: usize = 0;
    while k < words.len()
        invariant
            k <= words@.len(),
            out@ == join_sp(conts.take(k as int)),
        decreases words@.len() - k,
    {
        if k > 0 {
            out.push(' ');
        }
        let content: &Vec<char> = match &words[k] {
            Word::Unmatched(v) => v,
            Word::Matched(v) => v,
        };
        let mut c2 = clone_chars(content);
        out.append(&mut c2);
        proof {
            assert(conts.take(k + 1).drop_last() =~= conts.take(k as int));
            assert(conts.take(k + 1).last() == conts[k as int]);
        }
        k += 1;
    }
    proof {
        assert(conts.take(conts.len() as int) =~= conts);
    }
    out
}

/// Rewrites every standalone word of the prose that exactly equals some
/// tree entry's short name into a markdown-style link to that entry's
/// canonical URL, leaves all other text alone, and keeps the line breaks
/// of the input in place via the padded placeholder.
#[verifier::loop_isolation(false)]
pub fn fmt_autolinks(ast: &Ast, root: &Namespace, text: &String) -> (r: String)
    requires
        ast.wf(),
        entries_inv(ast, root.entries@),
    ensures
        r@ == autolinked(ast, root.entries@, text@),
{
    let chars = str_chars(text.as_str());
    let mut pat: Vec<char> = Vec::new();
    pat.push('\n');
    let mut rep: Vec<char> = Vec::new();
    rep.push(' ');
    rep.push('<');
    rep.push('<');
    rep.push('b');
    rep.push('r');
    rep.push('>');
    rep.push('>');
    rep.push(' ');
    proof {
        assert(pat@ =~= seq!['\n']);
        assert(rep@ =~= br_padded());
    }
    let protected = replace_all_exec(&chars, &pat, &rep);
    let mut words = split_words(&protected);
    let ghost words0 = words_model(words@);
    let mut k: usize = 0;
    proof {
        assert(root.entries@.skip(0) =~= root.entries@);
    }
    while k < root.entries.len()
        invariant
            ast.wf(),
            k <= root.entries@.len(),
            entries_inv(ast, root.entries@),
            mark_list(ast, root.entries@, words0) == mark_list(
                ast,
                root.entries@.skip(k as int),
                words_model(words@),
            ),
        decreases root.entries@.len() - k,
    {
        proof {
            assert(entry_inv(ast, root.entries@[k as int]));
            assert(root.entries@.skip(k as int)[0] == root.entries@[k as int]);
        }
        let ghost cur0 = words_model(words@);
        words = fmt_autolinks_recursive(ast, &root.entries[k], words);
        proof {
            assert(root.entries@.skip(k as int).drop_first() =~= root.entries@.skip(k + 1));
            assert(mark_list(ast, root.entries@.skip(k as int), cur0) == mark_list(
                ast,
                root.entries@.skip(k + 1),
                mark_item(ast, root.entries@[k as int], cur0),
            ));
        }
        k += 1;
    }
    proof {
        assert(root.entries@.skip(root.entries@.len() as int) =~= Seq::<CppItem>::empty());
    }
    let joined_chars = join_words(&words);
    let mut brpat: Vec<char> = Vec::new();
    brpat.push('<');
    brpat.push('<');
    brpat.push('b');
    brpat.push('r');
    brpat.push('>');
    brpat.push('>');
    let mut nl: Vec<char> = Vec::new();
    nl.push('\n');
    proof {
        assert(brpat@ =~= br_token());
        assert(nl@ =~= seq!['\n']);
        assert(Seq::new(words_model(words@).len(), |i: int| words_model(words@)[i].1)
            =~= Seq::new(words@.len(), |i: int| word_model(words@[i]).1));
    }
    let restored = replace_all_exec(&joined_chars, &brpat, &nl);
    chars_to_string(&restored)
}

/// Whether any entry of the tree, at any depth, bears the given name.
pub open spec fn name_in_tree(ast: &Ast, es: Seq<CppItem>, n: Seq<char>) -> bool
    decreases es,
{
    exists|k: int|
        0 <= k < es.len() && (spec_item_name(ast, #[trigger] es[k]) == n || (es[k] matches
        CppItem::Namespace(ns) && name_in_tree(ast, ns.entries@, n)))
}

proof fn lemma_mark_item_keep(ast: &Ast, it: CppItem, ws: Seq<(bool, Seq<char>)>, i: int)
    requires
        0 <= i < ws.len(),
        ws[i].0 || (spec_item_name(ast, it) != ws[i].1 && (it matches CppItem::Namespace(ns)
            ==> !name_in_tree(ast, ns.entries@, ws[i].1))),
    ensures
        mark_item(ast, it, ws).len() == ws.len(),
        mark_item(ast, it, ws)[i] == ws[i],
    decreases it, 1nat,
{
    let nm = spec_item_name(ast, it);
    let lk = link_text(nm, ast.chain_names(item_entity(it)));
    let ws2 = Seq::new(
        ws.len(),
        |t: int|
            if !ws[t].0 && ws[t].1 == nm {
                (true, lk)
            } else {
                ws[t]
            },
    );
    assert(ws2[i] == ws[i]);
    match it {
        CppItem::Namespace(ns) => {
            lemma_mark_list_keep(ast, ns.entries@, ws2, i);
        },
        _ => {},
    }
}

proof fn lemma_mark_list_keep(ast: &Ast, es: Seq<CppItem>, ws: Seq<(bool, Seq<char>)>, i: int)
    requires
        0 <= i < ws.len(),
        ws[i].0 || !name_in_tree(ast, es, ws[i].1),
    ensures
        mark_list(ast, es, ws).len() == ws.len(),
        mark_list(ast, es, ws)[i] == ws[i],
    decreases es, 0nat,
{
    if es.len() > 0 {
        lemma_mark_item_keep(ast, es[0], ws, i);
        lemma_mark_list_keep(ast, es.drop_first(), mark_item(ast, es[0], ws), i);
    }
}

/// Newline preservation under autolinking, at the token level: unless some
/// entry of the tree is literally named like the line-break placeholder,
/// the match pass leaves every placeholder token — and with it every line
/// break of the input — exactly where it was, and never changes the number
/// of tokens.
pub proof fn lemma_autolink_newline_preservation(
    ast: &Ast,
    es: Seq<CppItem>,
    ws: Seq<(bool, Seq<char>)>,
    i: int,
)
    requires
        0 <= i < ws.len(),
        ws[i] == (false, br_token()),
        !name_in_tree(ast, es, br_token()),
    ensures
        mark_list(ast, es, ws).len() == ws.len(),
        mark_list(ast, es, ws)[i] == ws[i],
{
    lemma_mark_list_keep(ast, es, ws, i);
}

} // verus!
