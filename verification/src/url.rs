//! Canonical URL paths. A symbol's URL is its fully qualified scope chain
//! mapped onto a routable path: one path component per scope segment.

use vstd::prelude::*;
use vstd::string::StringExecFns;

verus! {

broadcast use {vstd::std_specs::vec::group_vec_axioms, vstd::seq::group_seq_axioms};

/// A routable path, one component per scope segment of a fully qualified
/// name: `a::b::C` becomes the components `["a", "b", "C"]`.
pub struct UrlPath {
    pub parts: Vec<String>,
}

impl View for UrlPath {
    type V = Seq<Seq<char>>;

    open spec fn view(&self) -> Seq<Seq<char>> {
        Seq::new(self.parts@.len(), |i: int| self.parts@[i]@)
    }
}

/// The rendered form of a path: components joined by `/`.
pub open spec fn joined(parts: Seq<Seq<char>>) -> Seq<char>
    decreases parts.len(),
{
    if parts.len() == 0 {
        Seq::empty()
    } else if parts.len() == 1 {
        parts[0]
    } else {
        joined(parts.drop_last()) + seq!['/'] + parts.last()
    }
}

impl UrlPath {
    /// The empty path.
    pub fn new() -> (r: UrlPath)
        ensures
            r@ =~= Seq::<Seq<char>>::empty(),
    {
        UrlPath { parts: Vec::new() }
    }

    /// The path whose components are exactly the given scope segments.
    pub fn from_parts(parts: Vec<String>) -> (r: UrlPath)
        ensures
            r.parts == parts,
            r@ =~= Seq::new(parts@.len(), |i: int| parts@[i]@),
    {
        UrlPath { parts }
    }

    /// Renders the path as a single string, components joined by `/`.
    pub fn to_raw_string(&self) -> (r: String)
        ensures
            r@ == joined(self@),
    {
        let mut out = String::new();
        let mut i: usize = 0;
        while i < self.parts.len()
            invariant
                i <= self.parts.len(),
                out@ == joined(self@.take(i as int)),
            decreases self.parts.len() - i,
        {
            if i > 0 {
                out.append("/");
            }
            out.append(self.parts[i].as_str());
            proof {
                assert(self@.take(i + 1).drop_last() =~= self@.take(i as int));
                assert(self@.take(i + 1).last() == self@[i as int]);
                if i > 0 {
                    assert(out@ == joined(self@.take(i as int)) + "/"@ + self@[i as int]);
                    reveal_strlit("/");
                    assert("/"@ =~= seq!['/']);
                } else {
                    assert(joined(self@.take(0)) =~= Seq::<char>::empty());
                    assert(out@ =~= self@[0]);
                }
            }
            i += 1;
        }
        proof {
            assert(self@.take(self.parts@.len() as int) =~= self@);
        }
        out
    }
}

/// A usable scope segment: nonempty and free of the path separator.
pub open spec fn part_ok(p: Seq<char>) -> bool {
    p.len() > 0 && forall|j: int| 0 <= j < p.len() ==> p[j] != '/'
}

pub open spec fn wf_parts(parts: Seq<Seq<char>>) -> bool {
    forall|i: int| 0 <= i < parts.len() ==> part_ok(#[trigger] parts[i])
}

proof fn lemma_joined_injective(a: Seq<Seq<char>>, b: Seq<Seq<char>>)
    requires
        wf_parts(a),
        wf_parts(b),
        joined(a) == joined(b),
    ensures
        a =~= b,
    decreases a.len(),
{
    let ja = joined(a);
    let jb = joined(b);
    if a.len() >= 2 && b.len() >= 2 {
        let x = a.last();
        let y = b.last();
        let pa = joined(a.drop_last());
        let pb = joined(b.drop_last());
        assert(part_ok(a[a.len() - 1]));
        assert(part_ok(b[b.len() - 1]));
        assert(ja == pa + seq!['/'] + x);
        assert(jb == pb + seq!['/'] + y);
        assert(ja[pa.len() as int] == '/');
        assert(jb[pb.len() as int] == '/');
        if x.len() < y.len() {
            let pos = pa.len() as int;
            assert(pos == jb.len() - 1 - x.len());
            assert(pos - pb.len() - 1 >= 0);
            assert(jb[pos] == y[pos - pb.len() - 1]);
            assert(y[pos - pb.len() - 1] != '/');
            assert(false);
        }
        if y.len() < x.len() {
            let pos = pb.len() as int;
            assert(pos == ja.len() - 1 - y.len());
            assert(pos - pa.len() - 1 >= 0);
            assert(ja[pos] == x[pos - pa.len() - 1]);
            assert(x[pos - pa.len() - 1] != '/');
            assert(false);
        }
        assert(pa.len() == pb.len());
        assert forall|j: int| 0 <= j < x.len() implies x[j] == y[j] by {
            assert(ja[pa.len() + 1 + j] == x[j]);
            assert(jb[pb.len() + 1 + j] == y[j]);
        }
        assert(x =~= y);
        assert forall|j: int| 0 <= j < pa.len() implies pa[j] == pb[j] by {
            assert(ja[j] == pa[j]);
            assert(jb[j] == pb[j]);
        }
        assert(pa =~= pb);
        assert forall|i: int| 0 <= i < a.drop_last().len() implies part_ok(
            #[trigger] a.drop_last()[i],
        ) by {
            assert(a.drop_last()[i] == a[i]);
        }
        assert forall|i: int| 0 <= i < b.drop_last().len() implies part_ok(
            #[trigger] b.drop_last()[i],
        ) by {
            assert(b.drop_last()[i] == b[i]);
        }
        lemma_joined_injective(a.drop_last(), b.drop_last());
        assert forall|i: int| 0 <= i < a.len() implies a[i] == b[i] by {
            if i < a.len() - 1 {
                assert(a.drop_last()[i] == b.drop_last()[i]);
            }
        }
        assert(a =~= b);
    } else if a.len() <= 1 && b.len() <= 1 {
        if a.len() == 1 && b.len() == 1 {
            assert(a =~= b);
        } else if a.len() == 0 && b.len() == 1 {
            assert(part_ok(b[0]));
            assert(jb.len() > 0);
            assert(false);
        } else if a.len() == 1 && b.len() == 0 {
            assert(part_ok(a[0]));
            assert(ja.len() > 0);
            assert(false);
        } else {
            assert(a =~= b);
        }
    } else if a.len() >= 2 {
        let pa = joined(a.drop_last());
        assert(part_ok(a[a.len() - 1]));
        assert(ja == pa + seq!['/'] + a.last());
        assert(ja[pa.len() as int] == '/');
        if b.len() == 0 {
            assert(jb.len() == 0);
        } else {
            assert(part_ok(b[0]));
            assert(jb == b[0]);
            assert(jb[pa.len() as int] != '/');
        }
        assert(false);
    } else {
        let pb = joined(b.drop_last());
        assert(part_ok(b[b.len() - 1]));
        assert(jb == pb + seq!['/'] + b.last());
        assert(jb[pb.len() as int] == '/');
        if a.len() == 0 {
            assert(ja.len() == 0);
        } else {
            assert(part_ok(a[0]));
            assert(ja == a[0]);
            assert(ja[pb.len() as int] != '/');
        }
        assert(false);
    }
}

/// URL determinism: the rendered canonical path is a pure function of the
/// fully qualified scope chain, and injective on it — two chains of
/// nonempty, separator-free segments render to the same path exactly when
/// they are the same chain.
pub proof fn lemma_url_determinism(a: Seq<Seq<char>>, b: Seq<Seq<char>>)
    requires
        wf_parts(a),
        wf_parts(b),
    ensures
        joined(a) == joined(b) <==> a =~= b,
{
    if joined(a) == joined(b) {
        lemma_joined_injective(a, b);
    }
}

} // verus!
