//! The Close-With relation: a dependent window is closed when the window it
//! links to is closed.
//!
//! Each dependent links to at most one parent. The links are held in the order
//! in which they were made; the reverse collection of a parent, its
//! dependents in that order, is read off the same list, so the two sides of
//! the relation cannot drift apart.
use vstd::prelude::*;

verus! {

/// The forward side of the relation: the entity holding it closes with the
/// entity it names.
#[derive(Clone, Copy, Debug, PartialEq, Eq, Structural)]
pub struct CloseWith(pub u64);

/// The reverse side of the relation: the dependents of one parent, in the
/// order in which they were linked.
#[derive(Clone, Debug)]
pub struct AlsoClose(Vec<u64>);

impl View for AlsoClose {
    type V = Seq<u64>;

    closed spec fn view(&self) -> Seq<u64> {
        self.0@
    }
}

impl AlsoClose {
    /// The dependents, in the order in which they were linked.
    pub fn entities(&self) -> (r: &Vec<u64>)
        ensures
            r@ == self@,
    {
        &self.0
    }
}

/// One link: `dependent` closes with `parent`.
#[derive(Clone, Copy, Debug, PartialEq, Eq, Structural)]
pub struct Link {
    pub dependent: u64,
    pub parent: u64,
}

/// All links of the relation, oldest first.
pub struct CloseWithLinks {
    links: Vec<Link>,
}

impl View for CloseWithLinks {
    type V = Seq<Link>;

    closed spec fn view(&self) -> Seq<Link> {
        self.links@
    }
}

/// The parent that `d` links to, if any.
pub open spec fn parent_in(s: Seq<Link>, d: u64) -> Option<u64>
    decreases s.len(),
{
    if s.len() == 0 {
        None
    } else if s.last().dependent == d {
        Some(s.last().parent)
    } else {
        parent_in(s.drop_last(), d)
    }
}

/// The dependents that link to `p`, oldest link first.
pub open spec fn dependents_in(s: Seq<Link>, p: u64) -> Seq<u64>
    decreases s.len(),
{
    if s.len() == 0 {
        Seq::empty()
    } else if s.last().parent == p {
        dependents_in(s.drop_last(), p).push(s.last().dependent)
    } else {
        dependents_in(s.drop_last(), p)
    }
}

/// Each dependent links at most once, and never to itself.
pub open spec fn links_wf(s: Seq<Link>) -> bool
    decreases s.len(),
{
    s.len() == 0 || {
        &&& links_wf(s.drop_last())
        &&& parent_in(s.drop_last(), s.last().dependent) is None
        &&& s.last().dependent != s.last().parent
    }
}

/// `s` without the occurrences of `v`, in order.
pub open spec fn without(s: Seq<u64>, v: u64) -> Seq<u64>
    decreases s.len(),
{
    if s.len() == 0 {
        Seq::empty()
    } else if s.last() == v {
        without(s.drop_last(), v)
    } else {
        without(s.drop_last(), v).push(s.last())
    }
}

/// Whether unlinking `e` keeps `l`: the link of `e` as a dependent goes, and so
/// do the links to `e` as a parent when `as_parent` holds.
pub open spec fn kept(l: Link, e: u64, as_parent: bool) -> bool {
    l.dependent != e && !(as_parent && l.parent == e)
}

/// The links that unlinking `e` keeps, in order.
pub open spec fn links_kept(s: Seq<Link>, e: u64, as_parent: bool) -> Seq<Link>
    decreases s.len(),
{
    if s.len() == 0 {
        Seq::empty()
    } else if kept(s.last(), e, as_parent) {
        links_kept(s.drop_last(), e, as_parent).push(s.last())
    } else {
        links_kept(s.drop_last(), e, as_parent)
    }
}

proof fn lemma_dependents_kept(s: Seq<Link>, e: u64, as_parent: bool, p: u64)
    ensures
        dependents_in(links_kept(s, e, as_parent), p) == (if as_parent && p == e {
            Seq::<u64>::empty()
        } else {
            without(dependents_in(s, p), e)
        }),
    decreases s.len(),
{
    if s.len() > 0 {
        lemma_dependents_kept(s.drop_last(), e, as_parent, p);
        let k = links_kept(s, e, as_parent);
        if kept(s.last(), e, as_parent) {
            assert(k.drop_last() =~= links_kept(s.drop_last(), e, as_parent));
            let ds = dependents_in(s, p);
            if s.last().parent == p {
                assert(ds.drop_last() =~= dependents_in(s.drop_last(), p));
            }
        } else if s.last().parent == p {
            let ds = dependents_in(s, p);
            assert(ds.drop_last() =~= dependents_in(s.drop_last(), p));
        }
    }
}

proof fn lemma_parent_kept(s: Seq<Link>, e: u64, as_parent: bool, x: u64)
    requires
        links_wf(s),
    ensures
        parent_in(links_kept(s, e, as_parent), x) == (if x == e || (as_parent && parent_in(s, x) == Some(e)) {
            None::<u64>
        } else {
            parent_in(s, x)
        }),
    decreases s.len(),
{
    if s.len() > 0 {
        lemma_parent_kept(s.drop_last(), e, as_parent, x);
        let k = links_kept(s, e, as_parent);
        if kept(s.last(), e, as_parent) {
            assert(k.drop_last() =~= links_kept(s.drop_last(), e, as_parent));
        }
    }
}

proof fn lemma_kept_wf(s: Seq<Link>, e: u64, as_parent: bool)
    requires
        links_wf(s),
    ensures
        links_wf(links_kept(s, e, as_parent)),
    decreases s.len(),
{
    if s.len() > 0 {
        lemma_kept_wf(s.drop_last(), e, as_parent);
        let k = links_kept(s, e, as_parent);
        if kept(s.last(), e, as_parent) {
            assert(k.drop_last() =~= links_kept(s.drop_last(), e, as_parent));
            lemma_parent_kept(s.drop_last(), e, as_parent, s.last().dependent);
        }
    }
}

proof fn lemma_dependents_match_parents(s: Seq<Link>, p: u64, d: u64)
    requires
        links_wf(s),
    ensures
        dependents_in(s, p).contains(d) <==> parent_in(s, d) == Some(p),
        dependents_in(s, p).no_duplicates(),
    decreases s.len(),
{
    if s.len() > 0 {
        let rest = dependents_in(s.drop_last(), p);
        let l = s.last();
        lemma_dependents_match_parents(s.drop_last(), p, d);
        lemma_dependents_match_parents(s.drop_last(), p, l.dependent);
        if l.parent == p {
            let ds = rest.push(l.dependent);
            assert(ds[rest.len() as int] == l.dependent);
            if rest.contains(d) {
                let i = choose|i: int| 0 <= i < rest.len() && rest[i] == d;
                assert(ds[i] == d);
            }
            if ds.contains(d) && d != l.dependent {
                let i = choose|i: int| 0 <= i < ds.len() && ds[i] == d;
                assert(rest[i] == d);
            }
            assert forall|i: int, j: int| 0 <= i < ds.len() && 0 <= j < ds.len() && i != j implies ds[i] != ds[j] by {
                if i == rest.len() {
                    assert(rest[j] == ds[j]);
                } else if j == rest.len() {
                    assert(rest[i] == ds[i]);
                }
            }
        }
    }
}

/// The links after `d` links to `p`: an earlier link of `d` goes, and the new
/// one comes last. A link of an entity to itself is refused.
pub open spec fn attached(s: Seq<Link>, d: u64, p: u64) -> Seq<Link> {
    if d == p {
        links_kept(s, d, false)
    } else {
        links_kept(s, d, false).push(Link { dependent: d, parent: p })
    }
}

proof fn lemma_attached(s: Seq<Link>, d: u64, p: u64)
    requires
        links_wf(s),
    ensures
        links_wf(attached(s, d, p)),
        forall|x: u64| #[trigger] parent_in(attached(s, d, p), x) == (if x == d {
            if d == p { None::<u64> } else { Some(p) }
        } else {
            parent_in(s, x)
        }),
        forall|q: u64| #[trigger] dependents_in(attached(s, d, p), q) == (if q == p && d != p {
            without(dependents_in(s, q), d).push(d)
        } else {
            without(dependents_in(s, q), d)
        }),
{
    let k = links_kept(s, d, false);
    let a = attached(s, d, p);
    lemma_kept_wf(s, d, false);
    lemma_parent_kept(s, d, false, d);
    if d != p {
        assert(a.drop_last() =~= k);
    }
    assert forall|x: u64| #[trigger] parent_in(a, x) == (if x == d {
        if d == p { None::<u64> } else { Some(p) }
    } else {
        parent_in(s, x)
    }) by {
        lemma_parent_kept(s, d, false, x);
    }
    assert forall|q: u64| #[trigger] dependents_in(a, q) == (if q == p && d != p {
        without(dependents_in(s, q), d).push(d)
    } else {
        without(dependents_in(s, q), d)
    }) by {
        lemma_dependents_kept(s, d, false, q);
    }
}

/// A dependent appears in the reverse collection of a parent exactly when it
/// holds the Close-With relation to that parent, and no reverse collection
/// lists a dependent twice.
pub proof fn lemma_relation_consistent(links: &CloseWithLinks, d: u64, p: u64)
    requires
        links.wf(),
    ensures
        links.dependents_of(p).contains(d) <==> links.parent_of(d) == Some(p),
        links.dependents_of(p).no_duplicates(),
{
    lemma_dependents_match_parents(links@, p, d);
}

/// Linking `d` to a new parent `p` leaves it linked to `p` alone: it leaves the
/// reverse collection of its former parent `q` and comes last in that of `p`.
pub proof fn lemma_reattach_moves(s: Seq<Link>, d: u64, q: u64, p: u64)
    requires
        links_wf(s),
        parent_in(s, d) == Some(q),
        p != d,
    ensures
        parent_in(attached(s, d, p), d) == Some(p),
        q != p ==> !dependents_in(attached(s, d, p), q).contains(d),
        dependents_in(attached(s, d, p), p).last() == d,
        dependents_in(attached(s, d, p), p).contains(d),
        dependents_in(attached(s, d, p), p).no_duplicates(),
{
    lemma_attached(s, d, p);
    lemma_dependents_match_parents(attached(s, d, p), q, d);
    lemma_dependents_match_parents(attached(s, d, p), p, d);
}

impl CloseWithLinks {
    /// Each dependent links at most once, and never to itself.
    pub open spec fn wf(&self) -> bool {
        links_wf(self@)
    }

    /// The parent that `d` closes with, if any.
    pub open spec fn parent_of(&self, d: u64) -> Option<u64> {
        parent_in(self@, d)
    }

    /// The reverse collection of `p`: its dependents, oldest link first.
    pub open spec fn dependents_of(&self, p: u64) -> Seq<u64> {
        dependents_in(self@, p)
    }

    /// No links.
    pub fn new() -> (r: CloseWithLinks)
        ensures
            r.wf(),
            forall|d: u64| #[trigger] r.parent_of(d) is None,
            forall|p: u64| #[trigger] r.dependents_of(p) == Seq::<u64>::empty(),
    {
        CloseWithLinks { links: Vec::new() }
    }

    /// The Close-With relation that `d` holds, if any.
    pub fn close_with(&self, d: u64) -> (r: Option<CloseWith>)
        ensures
            r == (match self.parent_of(d) {
                Some(p) => Some(CloseWith(p)),
                None => None,
            }),
    {
        let mut i: usize = self.links.len();
        assert(self@.subrange(0, i as int) =~= self@);
        while i > 0
            invariant
                i <= self@.len(),
                self@ == self.links@,
                parent_in(self@, d) == parent_in(self@.subrange(0, i as int), d),
            decreases i,
        {
            let sub = Ghost(self@.subrange(0, i as int));
            assert(sub@.drop_last() =~= self@.subrange(0, i - 1));
            let l = self.links[i - 1];
            if l.dependent == d {
                return Some(CloseWith(l.parent));
            }
            i -= 1;
        }
        None
    }

    /// The reverse collection of `p`.
    pub fn also_close(&self, p: u64) -> (r: AlsoClose)
        ensures
            r@ == self.dependents_of(p),
    {
        let mut out: Vec<u64> = Vec::new();
        let mut i: usize = 0;
        while i < self.links.len()
            invariant
                i <= self@.len(),
                self@ == self.links@,
                out@ == dependents_in(self@.subrange(0, i as int), p),
            decreases self@.len() - i,
        {
            assert(self@.subrange(0, i + 1).drop_last() =~= self@.subrange(0, i as int));
            let l = self.links[i];
            if l.parent == p {
                out.push(l.dependent);
            }
            i += 1;
        }
        assert(self@.subrange(0, i as int) =~= self@);
        AlsoClose(out)
    }

    /// `d` gains the relation `link`: an earlier link of `d` is dropped, and
    /// `d` comes last in the reverse collection of its new parent. A link of an
    /// entity to itself is refused and only drops the earlier link.
    pub fn attach(&mut self, d: u64, link: CloseWith)
        requires
            old(self).wf(),
        ensures
            final(self).wf(),
            final(self)@ == attached(old(self)@, d, link.0),
            forall|x: u64| #[trigger] final(self).parent_of(x) == (if x == d {
                if d == link.0 { None::<u64> } else { Some(link.0) }
            } else {
                old(self).parent_of(x)
            }),
            forall|q: u64| #[trigger] final(self).dependents_of(q) == (if q == link.0 && d != link.0 {
                without(old(self).dependents_of(q), d).push(d)
            } else {
                without(old(self).dependents_of(q), d)
            }),
    {
        proof {
            lemma_attached(old(self)@, d, link.0);
        }
        self.unlink(d, false);
        if d != link.0 {
            self.links.push(Link { dependent: d, parent: link.0 });
        }
    }

    /// `d` loses its relation, which is returned; it leaves the reverse
    /// collection of its parent.
    pub fn detach(&mut self, d: u64) -> (r: Option<CloseWith>)
        requires
            old(self).wf(),
        ensures
            final(self).wf(),
            r == (match old(self).parent_of(d) {
                Some(p) => Some(CloseWith(p)),
                None => None,
            }),
            forall|x: u64| #[trigger] final(self).parent_of(x) == (if x == d {
                None::<u64>
            } else {
                old(self).parent_of(x)
            }),
            forall|q: u64| #[trigger] final(self).dependents_of(q) == without(old(self).dependents_of(q), d),
    {
        let r = self.close_with(d);
        proof {
            lemma_kept_wf(old(self)@, d, false);
            assert forall|x: u64| #[trigger] parent_in(links_kept(old(self)@, d, false), x) == (if x == d {
                None::<u64>
            } else {
                old(self).parent_of(x)
            }) by {
                lemma_parent_kept(old(self)@, d, false, x);
            }
            assert forall|q: u64| #[trigger] dependents_in(links_kept(old(self)@, d, false), q)
                == without(old(self).dependents_of(q), d) by {
                lemma_dependents_kept(old(self)@, d, false, q);
            }
        }
        self.unlink(d, false);
        r
    }

    /// `e` is despawned: it loses its own relation, and its dependents lose
    /// theirs. Its reverse collection is returned, for the caller to close
    /// those windows.
    pub fn despawn(&mut self, e: u64) -> (r: AlsoClose)
        requires
            old(self).wf(),
        ensures
            final(self).wf(),
            r@ == old(self).dependents_of(e),
            forall|x: u64| #[trigger] final(self).parent_of(x) == (if x == e || old(self).parent_of(x) == Some(e) {
                None::<u64>
            } else {
                old(self).parent_of(x)
            }),
            forall|q: u64| #[trigger] final(self).dependents_of(q) == (if q == e {
                Seq::<u64>::empty()
            } else {
                without(old(self).dependents_of(q), e)
            }),
    {
        let r = self.also_close(e);
        proof {
            lemma_kept_wf(old(self)@, e, true);
            assert forall|x: u64| #[trigger] parent_in(links_kept(old(self)@, e, true), x) == (if x == e
                || old(self).parent_of(x) == Some(e) {
                None::<u64>
            } else {
                old(self).parent_of(x)
            }) by {
                lemma_parent_kept(old(self)@, e, true, x);
            }
            assert forall|q: u64| #[trigger] dependents_in(links_kept(old(self)@, e, true), q) == (if q == e {
                Seq::<u64>::empty()
            } else {
                without(old(self).dependents_of(q), e)
            }) by {
                lemma_dependents_kept(old(self)@, e, true, q);
            }
        }
        self.unlink(e, true);
        r
    }

    /// Drops the link of `e` as a dependent, and its links as a parent when
    /// `as_parent` holds; the other links keep their order.
    fn unlink(&mut self, e: u64, as_parent: bool)
        ensures
            final(self)@ == links_kept(old(self)@, e, as_parent),
    {
        let mut out: Vec<Link> = Vec::new();
        let mut i: usize = 0;
        while i < self.links.len()
            invariant
                i <= self@.len(),
                self@ == self.links@,
                self@ == old(self)@,
                out@ == links_kept(self@.subrange(0, i as int), e, as_parent),
            decreases self@.len() - i,
        {
            assert(self@.subrange(0, i + 1).drop_last() =~= self@.subrange(0, i as int));
            let l = self.links[i];
            if l.dependent != e && !(as_parent && l.parent == e) {
                out.push(l);
            }
            i += 1;
        }
        assert(self@.subrange(0, i as int) =~= self@);
        self.links = out;
    }
}

} // verus!
