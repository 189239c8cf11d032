use vstd::prelude::*;

use std::ops::{Range, RangeFull, RangeInclusive};

use crate::site::Site;
use crate::tagged::{Scalar, Tagged};
use crate::tagger::Id;
use crate::text::{element_name, field_name, join, make_element_name, make_field_name};

verus! {

/// Values that can be bound to a site under a variable name: every tracked
/// id they hold is recorded under a name derived from the variable's.
pub trait SiteBind {
    /// The names and tags recorded when this value is bound as `var_name`.
    spec fn bindings(&self, var_name: Seq<char>) -> Seq<(Seq<char>, Id)>;

    /// Records the bindings of this value, as `var_name`, at `site`.
    fn bind(&self, site: &mut Site, var_name: &str)
        ensures
            final(site).observed() == old(site).observed() + self.bindings(var_name@),
            final(site).name() == old(site).name(),
            final(site).types() == old(site).types(),
            final(site).vars() == old(site).vars(),
            final(site).var_entries() == old(site).var_entries(),
            final(site).wf() == old(site).wf(),
    ;
}

/// The bindings of the first `k` elements of `elems`, element `i` named `name[i]`.
pub open spec fn element_bindings<T: SiteBind>(elems: Seq<T>, name: Seq<char>, k: nat) -> Seq<
    (Seq<char>, Id),
>
    decreases k,
{
    if k == 0 {
        Seq::empty()
    } else {
        let j = (k - 1) as nat;
        element_bindings(elems, name, j) + elems[j as int].bindings(element_name(name, j))
    }
}

/// The name of the length of `name`: `name_LEN`.
pub open spec fn length_name(name: Seq<char>) -> Seq<char> {
    name + seq!['_', 'L', 'E', 'N']
}

/// `name.start`.
pub open spec fn start_name(name: Seq<char>) -> Seq<char> {
    name + seq!['.', 's', 't', 'a', 'r', 't']
}

/// `name.end`.
pub open spec fn end_name(name: Seq<char>) -> Seq<char> {
    name + seq!['.', 'e', 'n', 'd']
}

/// Binds the length id and then every element of `elems`.
fn bind_elements<T: SiteBind>(elems: &[T], id: Id, site: &mut Site, var_name: &str)
    ensures
        final(site).observed() == old(site).observed() + seq![(length_name(var_name@), id)]
            + element_bindings(elems@, var_name@, elems@.len()),
        final(site).name() == old(site).name(),
        final(site).types() == old(site).types(),
        final(site).vars() == old(site).vars(),
        final(site).var_entries() == old(site).var_entries(),
        final(site).wf() == old(site).wf(),
{
    proof {
        reveal_strlit("_LEN");
    }
    let len_name = join(var_name, "_LEN");
    assert(len_name@ =~= length_name(var_name@));
    site.bind_tag(len_name.as_str(), id);
    let ghost start = site.observed();
    assert(start =~= old(site).observed() + seq![(length_name(var_name@), id)]);
    assert(element_bindings(elems@, var_name@, 0) =~= Seq::<(Seq<char>, Id)>::empty());
    let n = elems.len();
    let mut i: usize = 0;
    while i < n
        invariant
            n == elems@.len(),
            i <= n,
            site.observed() == start + element_bindings(elems@, var_name@, i as nat),
            start == old(site).observed() + seq![(length_name(var_name@), id)],
            site.name() == old(site).name(),
            site.types() == old(site).types(),
            site.vars() == old(site).vars(),
            site.var_entries() == old(site).var_entries(),
            site.wf() == old(site).wf(),
        decreases n - i,
    {
        let name = make_element_name(var_name, i);
        elems[i].bind(site, name.as_str());
        assert(site.observed() =~= start + element_bindings(elems@, var_name@, (i + 1) as nat));
        i = i + 1;
    }
    assert(site.observed() =~= old(site).observed() + seq![(length_name(var_name@), id)]
        + element_bindings(elems@, var_name@, elems@.len()));
}

impl<T: Scalar> SiteBind for Tagged<T> {
    open spec fn bindings(&self, var_name: Seq<char>) -> Seq<(Seq<char>, Id)> {
        seq![(var_name, self.0)]
    }

    fn bind(&self, site: &mut Site, var_name: &str) {
        site.bind_tag(var_name, self.0);
    }
}

impl<'a, U: SiteBind> SiteBind for &'a U {
    open spec fn bindings(&self, var_name: Seq<char>) -> Seq<(Seq<char>, Id)> {
        (**self).bindings(var_name)
    }

    fn bind(&self, site: &mut Site, var_name: &str) {
        (**self).bind(site, var_name);
    }
}

impl<T: SiteBind, const N: usize> SiteBind for Tagged<[T; N]> {
    open spec fn bindings(&self, var_name: Seq<char>) -> Seq<(Seq<char>, Id)> {
        seq![(length_name(var_name), self.0)] + element_bindings(self.1@, var_name, N as nat)
    }

    fn bind(&self, site: &mut Site, var_name: &str) {
        bind_elements(self.1.as_slice(), self.len().0, site, var_name);
    }
}

impl<'s, T: SiteBind> SiteBind for Tagged<&'s [T]> {
    open spec fn bindings(&self, var_name: Seq<char>) -> Seq<(Seq<char>, Id)> {
        seq![(length_name(var_name), self.0)] + element_bindings(self.1@, var_name, self.1@.len())
    }

    fn bind(&self, site: &mut Site, var_name: &str) {
        bind_elements(self.1, self.len().0, site, var_name);
    }
}

impl<'s, T: SiteBind> SiteBind for Tagged<&'s mut [T]> {
    open spec fn bindings(&self, var_name: Seq<char>) -> Seq<(Seq<char>, Id)> {
        seq![(length_name(var_name), self.0)] + element_bindings(self.1@, var_name, self.1@.len())
    }

    fn bind(&self, site: &mut Site, var_name: &str) {
        bind_elements(&*self.1, self.len().0, site, var_name);
    }
}

impl<'a, U: SiteBind> SiteBind for &'a mut U {
    open spec fn bindings(&self, var_name: Seq<char>) -> Seq<(Seq<char>, Id)> {
        (**self).bindings(var_name)
    }

    fn bind(&self, site: &mut Site, var_name: &str) {
        (**self).bind(site, var_name);
    }
}

impl<T> SiteBind for Tagged<Range<Tagged<T>>> {
    open spec fn bindings(&self, var_name: Seq<char>) -> Seq<(Seq<char>, Id)> {
        seq![
            (var_name, self.0),
            (start_name(var_name), self.1.start.0),
            (end_name(var_name), self.1.end.0),
            (length_name(var_name), self.0),
        ]
    }

    fn bind(&self, site: &mut Site, var_name: &str) {
        proof {
            reveal_strlit(".start");
            reveal_strlit(".end");
        }
        let start = join(var_name, ".start");
        let end = join(var_name, ".end");
        assert(start@ =~= start_name(var_name@));
        assert(end@ =~= end_name(var_name@));
        site.bind_tag(var_name, self.0);
        site.bind_tag(start.as_str(), self.1.start.0);
        site.bind_tag(end.as_str(), self.1.end.0);
        proof {
            reveal_strlit("_LEN");
        }
        let len_name = join(var_name, "_LEN");
        assert(len_name@ =~= length_name(var_name@));
        site.bind_tag(len_name.as_str(), self.0);
        assert(site.observed() =~= old(site).observed() + self.bindings(var_name@));
    }
}

impl<T> SiteBind for Tagged<RangeInclusive<Tagged<T>>> {
    open spec fn bindings(&self, var_name: Seq<char>) -> Seq<(Seq<char>, Id)> {
        seq![
            (var_name, self.0),
            (start_name(var_name), self.1@.start.0),
            (end_name(var_name), self.1@.end.0),
            (length_name(var_name), self.0),
        ]
    }

    fn bind(&self, site: &mut Site, var_name: &str) {
        proof {
            reveal_strlit(".start");
            reveal_strlit(".end");
        }
        let start = join(var_name, ".start");
        let end = join(var_name, ".end");
        assert(start@ =~= start_name(var_name@));
        assert(end@ =~= end_name(var_name@));
        site.bind_tag(var_name, self.0);
        site.bind_tag(start.as_str(), self.1.start().0);
        site.bind_tag(end.as_str(), self.1.end().0);
        proof {
            reveal_strlit("_LEN");
        }
        let len_name = join(var_name, "_LEN");
        assert(len_name@ =~= length_name(var_name@));
        site.bind_tag(len_name.as_str(), self.0);
        assert(site.observed() =~= old(site).observed() + self.bindings(var_name@));
    }
}

impl SiteBind for Tagged<RangeFull> {
    open spec fn bindings(&self, var_name: Seq<char>) -> Seq<(Seq<char>, Id)> {
        seq![(var_name, self.0)]
    }

    fn bind(&self, site: &mut Site, var_name: &str) {
        site.bind_tag(var_name, self.0);
    }
}

impl<A: SiteBind, B: SiteBind> SiteBind for (A, B) {
    open spec fn bindings(&self, var_name: Seq<char>) -> Seq<(Seq<char>, Id)> {
        self.0.bindings(field_name(var_name, 0)) + self.1.bindings(field_name(var_name, 1))
    }

    fn bind(&self, site: &mut Site, var_name: &str) {
        self.0.bind(site, make_field_name(var_name, 0).as_str());
        self.1.bind(site, make_field_name(var_name, 1).as_str());
        assert(site.observed() =~= old(site).observed() + self.bindings(var_name@));
    }
}

impl<A: SiteBind, B: SiteBind, C: SiteBind> SiteBind for (A, B, C) {
    open spec fn bindings(&self, var_name: Seq<char>) -> Seq<(Seq<char>, Id)> {
        self.0.bindings(field_name(var_name, 0)) + self.1.bindings(field_name(var_name, 1)) + self.2.bindings(field_name(var_name, 2))
    }

    fn bind(&self, site: &mut Site, var_name: &str) {
        self.0.bind(site, make_field_name(var_name, 0).as_str());
        self.1.bind(site, make_field_name(var_name, 1).as_str());
        self.2.bind(site, make_field_name(var_name, 2).as_str());
        assert(site.observed() =~= old(site).observed() + self.bindings(var_name@));
    }
}

impl<A: SiteBind, B: SiteBind, C: SiteBind, D: SiteBind> SiteBind for (A, B, C, D) {
    open spec fn bindings(&self, var_name: Seq<char>) -> Seq<(Seq<char>, Id)> {
        self.0.bindings(field_name(var_name, 0)) + self.1.bindings(field_name(var_name, 1)) + self.2.bindings(field_name(var_name, 2)) + self.3.bindings(field_name(var_name, 3))
    }

    fn bind(&self, site: &mut Site, var_name: &str) {
        self.0.bind(site, make_field_name(var_name, 0).as_str());
        self.1.bind(site, make_field_name(var_name, 1).as_str());
        self.2.bind(site, make_field_name(var_name, 2).as_str());
        self.3.bind(site, make_field_name(var_name, 3).as_str());
        assert(site.observed() =~= old(site).observed() + self.bindings(var_name@));
    }
}

impl<A: SiteBind, B: SiteBind, C: SiteBind, D: SiteBind, E: SiteBind> SiteBind for (A, B, C, D, E) {
    open spec fn bindings(&self, var_name: Seq<char>) -> Seq<(Seq<char>, Id)> {
        self.0.bindings(field_name(var_name, 0)) + self.1.bindings(field_name(var_name, 1)) + self.2.bindings(field_name(var_name, 2)) + self.3.bindings(field_name(var_name, 3)) + self.4.bindings(field_name(var_name, 4))
    }

    fn bind(&self, site: &mut Site, var_name: &str) {
        self.0.bind(site, make_field_name(var_name, 0).as_str());
        self.1.bind(site, make_field_name(var_name, 1).as_str());
        self.2.bind(site, make_field_name(var_name, 2).as_str());
        self.3.bind(site, make_field_name(var_name, 3).as_str());
        self.4.bind(site, make_field_name(var_name, 4).as_str());
        assert(site.observed() =~= old(site).observed() + self.bindings(var_name@));
    }
}

impl<A: SiteBind, B: SiteBind, C: SiteBind, D: SiteBind, E: SiteBind, F: SiteBind> SiteBind for (A, B, C, D, E, F) {
    open spec fn bindings(&self, var_name: Seq<char>) -> Seq<(Seq<char>, Id)> {
        self.0.bindings(field_name(var_name, 0)) + self.1.bindings(field_name(var_name, 1)) + self.2.bindings(field_name(var_name, 2)) + self.3.bindings(field_name(var_name, 3)) + self.4.bindings(field_name(var_name, 4)) + self.5.bindings(field_name(var_name, 5))
    }

    fn bind(&self, site: &mut Site, var_name: &str) {
        self.0.bind(site, make_field_name(var_name, 0).as_str());
        self.1.bind(site, make_field_name(var_name, 1).as_str());
        self.2.bind(site, make_field_name(var_name, 2).as_str());
        self.3.bind(site, make_field_name(var_name, 3).as_str());
        self.4.bind(site, make_field_name(var_name, 4).as_str());
        self.5.bind(site, make_field_name(var_name, 5).as_str());
        assert(site.observed() =~= old(site).observed() + self.bindings(var_name@));
    }
}

impl<A: SiteBind, B: SiteBind, C: SiteBind, D: SiteBind, E: SiteBind, F: SiteBind, G: SiteBind> SiteBind for (A, B, C, D, E, F, G) {
    open spec fn bindings(&self, var_name: Seq<char>) -> Seq<(Seq<char>, Id)> {
        self.0.bindings(field_name(var_name, 0)) + self.1.bindings(field_name(var_name, 1)) + self.2.bindings(field_name(var_name, 2)) + self.3.bindings(field_name(var_name, 3)) + self.4.bindings(field_name(var_name, 4)) + self.5.bindings(field_name(var_name, 5)) + self.6.bindings(field_name(var_name, 6))
    }

    fn bind(&self, site: &mut Site, var_name: &str) {
        self.0.bind(site, make_field_name(var_name, 0).as_str());
        self.1.bind(site, make_field_name(var_name, 1).as_str());
        self.2.bind(site, make_field_name(var_name, 2).as_str());
        self.3.bind(site, make_field_name(var_name, 3).as_str());
        self.4.bind(site, make_field_name(var_name, 4).as_str());
        self.5.bind(site, make_field_name(var_name, 5).as_str());
        self.6.bind(site, make_field_name(var_name, 6).as_str());
        assert(site.observed() =~= old(site).observed() + self.bindings(var_name@));
    }
}

impl<A: SiteBind, B: SiteBind, C: SiteBind, D: SiteBind, E: SiteBind, F: SiteBind, G: SiteBind, H: SiteBind> SiteBind for (A, B, C, D, E, F, G, H) {
    open spec fn bindings(&self, var_name: Seq<char>) -> Seq<(Seq<char>, Id)> {
        self.0.bindings(field_name(var_name, 0)) + self.1.bindings(field_name(var_name, 1)) + self.2.bindings(field_name(var_name, 2)) + self.3.bindings(field_name(var_name, 3)) + self.4.bindings(field_name(var_name, 4)) + self.5.bindings(field_name(var_name, 5)) + self.6.bindings(field_name(var_name, 6)) + self.7.bindings(field_name(var_name, 7))
    }

    fn bind(&self, site: &mut Site, var_name: &str) {
        self.0.bind(site, make_field_name(var_name, 0).as_str());
        self.1.bind(site, make_field_name(var_name, 1).as_str());
        self.2.bind(site, make_field_name(var_name, 2).as_str());
        self.3.bind(site, make_field_name(var_name, 3).as_str());
        self.4.bind(site, make_field_name(var_name, 4).as_str());
        self.5.bind(site, make_field_name(var_name, 5).as_str());
        self.6.bind(site, make_field_name(var_name, 6).as_str());
        self.7.bind(site, make_field_name(var_name, 7).as_str());
        assert(site.observed() =~= old(site).observed() + self.bindings(var_name@));
    }
}

impl<A: SiteBind, B: SiteBind, C: SiteBind, D: SiteBind, E: SiteBind, F: SiteBind, G: SiteBind, H: SiteBind, I: SiteBind> SiteBind for (A, B, C, D, E, F, G, H, I) {
    open spec fn bindings(&self, var_name: Seq<char>) -> Seq<(Seq<char>, Id)> {
        self.0.bindings(field_name(var_name, 0)) + self.1.bindings(field_name(var_name, 1)) + self.2.bindings(field_name(var_name, 2)) + self.3.bindings(field_name(var_name, 3)) + self.4.bindings(field_name(var_name, 4)) + self.5.bindings(field_name(var_name, 5)) + self.6.bindings(field_name(var_name, 6)) + self.7.bindings(field_name(var_name, 7)) + self.8.bindings(field_name(var_name, 8))
    }

    fn bind(&self, site: &mut Site, var_name: &str) {
        self.0.bind(site, make_field_name(var_name, 0).as_str());
        self.1.bind(site, make_field_name(var_name, 1).as_str());
        self.2.bind(site, make_field_name(var_name, 2).as_str());
        self.3.bind(site, make_field_name(var_name, 3).as_str());
        self.4.bind(site, make_field_name(var_name, 4).as_str());
        self.5.bind(site, make_field_name(var_name, 5).as_str());
        self.6.bind(site, make_field_name(var_name, 6).as_str());
        self.7.bind(site, make_field_name(var_name, 7).as_str());
        self.8.bind(site, make_field_name(var_name, 8).as_str());
        assert(site.observed() =~= old(site).observed() + self.bindings(var_name@));
    }
}

impl<A: SiteBind, B: SiteBind, C: SiteBind, D: SiteBind, E: SiteBind, F: SiteBind, G: SiteBind, H: SiteBind, I: SiteBind, J: SiteBind> SiteBind for (A, B, C, D, E, F, G, H, I, J) {
    open spec fn bindings(&self, var_name: Seq<char>) -> Seq<(Seq<char>, Id)> {
        self.0.bindings(field_name(var_name, 0)) + self.1.bindings(field_name(var_name, 1)) + self.2.bindings(field_name(var_name, 2)) + self.3.bindings(field_name(var_name, 3)) + self.4.bindings(field_name(var_name, 4)) + self.5.bindings(field_name(var_name, 5)) + self.6.bindings(field_name(var_name, 6)) + self.7.bindings(field_name(var_name, 7)) + self.8.bindings(field_name(var_name, 8)) + self.9.bindings(field_name(var_name, 9))
    }

    fn bind(&self, site: &mut Site, var_name: &str) {
        self.0.bind(site, make_field_name(var_name, 0).as_str());
        self.1.bind(site, make_field_name(var_name, 1).as_str());
        self.2.bind(site, make_field_name(var_name, 2).as_str());
        self.3.bind(site, make_field_name(var_name, 3).as_str());
        self.4.bind(site, make_field_name(var_name, 4).as_str());
        self.5.bind(site, make_field_name(var_name, 5).as_str());
        self.6.bind(site, make_field_name(var_name, 6).as_str());
        self.7.bind(site, make_field_name(var_name, 7).as_str());
        self.8.bind(site, make_field_name(var_name, 8).as_str());
        self.9.bind(site, make_field_name(var_name, 9).as_str());
        assert(site.observed() =~= old(site).observed() + self.bindings(var_name@));
    }
}

impl<A: SiteBind, B: SiteBind, C: SiteBind, D: SiteBind, E: SiteBind, F: SiteBind, G: SiteBind, H: SiteBind, I: SiteBind, J: SiteBind, K: SiteBind> SiteBind for (A, B, C, D, E, F, G, H, I, J, K) {
    open spec fn bindings(&self, var_name: Seq<char>) -> Seq<(Seq<char>, Id)> {
        self.0.bindings(field_name(var_name, 0)) + self.1.bindings(field_name(var_name, 1)) + self.2.bindings(field_name(var_name, 2)) + self.3.bindings(field_name(var_name, 3)) + self.4.bindings(field_name(var_name, 4)) + self.5.bindings(field_name(var_name, 5)) + self.6.bindings(field_name(var_name, 6)) + self.7.bindings(field_name(var_name, 7)) + self.8.bindings(field_name(var_name, 8)) + self.9.bindings(field_name(var_name, 9)) + self.10.bindings(field_name(var_name, 10))
    }

    fn bind(&self, site: &mut Site, var_name: &str) {
        self.0.bind(site, make_field_name(var_name, 0).as_str());
        self.1.bind(site, make_field_name(var_name, 1).as_str());
        self.2.bind(site, make_field_name(var_name, 2).as_str());
        self.3.bind(site, make_field_name(var_name, 3).as_str());
        self.4.bind(site, make_field_name(var_name, 4).as_str());
        self.5.bind(site, make_field_name(var_name, 5).as_str());
        self.6.bind(site, make_field_name(var_name, 6).as_str());
        self.7.bind(site, make_field_name(var_name, 7).as_str());
        self.8.bind(site, make_field_name(var_name, 8).as_str());
        self.9.bind(site, make_field_name(var_name, 9).as_str());
        self.10.bind(site, make_field_name(var_name, 10).as_str());
        assert(site.observed() =~= old(site).observed() + self.bindings(var_name@));
    }
}

impl<A: SiteBind, B: SiteBind, C: SiteBind, D: SiteBind, E: SiteBind, F: SiteBind, G: SiteBind, H: SiteBind, I: SiteBind, J: SiteBind, K: SiteBind, L: SiteBind> SiteBind for (A, B, C, D, E, F, G, H, I, J, K, L) {
    open spec fn bindings(&self, var_name: Seq<char>) -> Seq<(Seq<char>, Id)> {
        self.0.bindings(field_name(var_name, 0)) + self.1.bindings(field_name(var_name, 1)) + self.2.bindings(field_name(var_name, 2)) + self.3.bindings(field_name(var_name, 3)) + self.4.bindings(field_name(var_name, 4)) + self.5.bindings(field_name(var_name, 5)) + self.6.bindings(field_name(var_name, 6)) + self.7.bindings(field_name(var_name, 7)) + self.8.bindings(field_name(var_name, 8)) + self.9.bindings(field_name(var_name, 9)) + self.10.bindings(field_name(var_name, 10)) + self.11.bindings(field_name(var_name, 11))
    }

    fn bind(&self, site: &mut Site, var_name: &str) {
        self.0.bind(site, make_field_name(var_name, 0).as_str());
        self.1.bind(site, make_field_name(var_name, 1).as_str());
        self.2.bind(site, make_field_name(var_name, 2).as_str());
        self.3.bind(site, make_field_name(var_name, 3).as_str());
        self.4.bind(site, make_field_name(var_name, 4).as_str());
        self.5.bind(site, make_field_name(var_name, 5).as_str());
        self.6.bind(site, make_field_name(var_name, 6).as_str());
        self.7.bind(site, make_field_name(var_name, 7).as_str());
        self.8.bind(site, make_field_name(var_name, 8).as_str());
        self.9.bind(site, make_field_name(var_name, 9).as_str());
        self.10.bind(site, make_field_name(var_name, 10).as_str());
        self.11.bind(site, make_field_name(var_name, 11).as_str());
        assert(site.observed() =~= old(site).observed() + self.bindings(var_name@));
    }
}

impl<A: SiteBind, B: SiteBind, C: SiteBind, D: SiteBind, E: SiteBind, F: SiteBind, G: SiteBind, H: SiteBind, I: SiteBind, J: SiteBind, K: SiteBind, L: SiteBind, M: SiteBind> SiteBind for (A, B, C, D, E, F, G, H, I, J, K, L, M) {
    open spec fn bindings(&self, var_name: Seq<char>) -> Seq<(Seq<char>, Id)> {
        self.0.bindings(field_name(var_name, 0)) + self.1.bindings(field_name(var_name, 1)) + self.2.bindings(field_name(var_name, 2)) + self.3.bindings(field_name(var_name, 3)) + self.4.bindings(field_name(var_name, 4)) + self.5.bindings(field_name(var_name, 5)) + self.6.bindings(field_name(var_name, 6)) + self.7.bindings(field_name(var_name, 7)) + self.8.bindings(field_name(var_name, 8)) + self.9.bindings(field_name(var_name, 9)) + self.10.bindings(field_name(var_name, 10)) + self.11.bindings(field_name(var_name, 11)) + self.12.bindings(field_name(var_name, 12))
    }

    fn bind(&self, site: &mut Site, var_name: &str) {
        self.0.bind(site, make_field_name(var_name, 0).as_str());
        self.1.bind(site, make_field_name(var_name, 1).as_str());
        self.2.bind(site, make_field_name(var_name, 2).as_str());
        self.3.bind(site, make_field_name(var_name, 3).as_str());
        self.4.bind(site, make_field_name(var_name, 4).as_str());
        self.5.bind(site, make_field_name(var_name, 5).as_str());
        self.6.bind(site, make_field_name(var_name, 6).as_str());
        self.7.bind(site, make_field_name(var_name, 7).as_str());
        self.8.bind(site, make_field_name(var_name, 8).as_str());
        self.9.bind(site, make_field_name(var_name, 9).as_str());
        self.10.bind(site, make_field_name(var_name, 10).as_str());
        self.11.bind(site, make_field_name(var_name, 11).as_str());
        self.12.bind(site, make_field_name(var_name, 12).as_str());
        assert(site.observed() =~= old(site).observed() + self.bindings(var_name@));
    }
}

/// How one field binds: its bindings under a name.
pub type FieldBind = spec_fn(Seq<char>) -> Seq<(Seq<char>, Id)>;

/// The bindings of the fields of a tuple bound as `v`: for each field in
/// order, the bindings it gives under `v.i`, `i` its position.
pub open spec fn fields_bindings(v: Seq<char>, fields: Seq<FieldBind>) -> Seq<(Seq<char>, Id)>
    decreases fields.len(),
{
    if fields.len() == 0 {
        Seq::empty()
    } else {
        fields_bindings(v, fields.drop_last()) + (fields.last())(field_name(v, (fields.len() - 1) as nat))
    }
}

proof fn lemma_fields_bindings_take(v: Seq<char>, fs: Seq<FieldBind>, k: int)
    requires
        0 <= k < fs.len(),
    ensures
        fields_bindings(v, fs.take(k + 1)) == fields_bindings(v, fs.take(k)) + fs[k](field_name(v, k as nat)),
{
    assert(fs.take(k + 1).drop_last() =~= fs.take(k));
    assert(fs.take(k + 1).last() == fs[k]);
}

/// A tuple of 2 fields bound as `v` records each field `i` under `v.i`,
/// field after field in order.
pub proof fn law_tuple2_binds_fields<A: SiteBind, B: SiteBind>(t: (A, B), v: Seq<char>)
    ensures
        t.bindings(v) == fields_bindings(v, seq![|n: Seq<char>| t.0.bindings(n), |n: Seq<char>| t.1.bindings(n)]),
{
    let fs = seq![|n: Seq<char>| t.0.bindings(n), |n: Seq<char>| t.1.bindings(n)];
    assert(fields_bindings(v, fs.take(0)) == Seq::<(Seq<char>, Id)>::empty());
    lemma_fields_bindings_take(v, fs, 0);
    assert(fs[0](field_name(v, 0)) == t.0.bindings(field_name(v, 0)));
    lemma_fields_bindings_take(v, fs, 1);
    assert(fs[1](field_name(v, 1)) == t.1.bindings(field_name(v, 1)));
    assert(fs.take(2) =~= fs);
    assert(t.bindings(v) =~= fields_bindings(v, fs));
}

/// A tuple of 3 fields bound as `v` records each field `i` under `v.i`,
/// field after field in order.
pub proof fn law_tuple3_binds_fields<A: SiteBind, B: SiteBind, C: SiteBind>(t: (A, B, C), v: Seq<char>)
    ensures
        t.bindings(v) == fields_bindings(v, seq![|n: Seq<char>| t.0.bindings(n), |n: Seq<char>| t.1.bindings(n), |n: Seq<char>| t.2.bindings(n)]),
{
    let fs = seq![|n: Seq<char>| t.0.bindings(n), |n: Seq<char>| t.1.bindings(n), |n: Seq<char>| t.2.bindings(n)];
    assert(fields_bindings(v, fs.take(0)) == Seq::<(Seq<char>, Id)>::empty());
    lemma_fields_bindings_take(v, fs, 0);
    assert(fs[0](field_name(v, 0)) == t.0.bindings(field_name(v, 0)));
    lemma_fields_bindings_take(v, fs, 1);
    assert(fs[1](field_name(v, 1)) == t.1.bindings(field_name(v, 1)));
    lemma_fields_bindings_take(v, fs, 2);
    assert(fs[2](field_name(v, 2)) == t.2.bindings(field_name(v, 2)));
    assert(fs.take(3) =~= fs);
    assert(t.bindings(v) =~= fields_bindings(v, fs));
}

/// A tuple of 4 fields bound as `v` records each field `i` under `v.i`,
/// field after field in order.
pub proof fn law_tuple4_binds_fields<A: SiteBind, B: SiteBind, C: SiteBind, D: SiteBind>(t: (A, B, C, D), v: Seq<char>)
    ensures
        t.bindings(v) == fields_bindings(v, seq![|n: Seq<char>| t.0.bindings(n), |n: Seq<char>| t.1.bindings(n), |n: Seq<char>| t.2.bindings(n), |n: Seq<char>| t.3.bindings(n)]),
{
    let fs = seq![|n: Seq<char>| t.0.bindings(n), |n: Seq<char>| t.1.bindings(n), |n: Seq<char>| t.2.bindings(n), |n: Seq<char>| t.3.bindings(n)];
    assert(fields_bindings(v, fs.take(0)) == Seq::<(Seq<char>, Id)>::empty());
    lemma_fields_bindings_take(v, fs, 0);
    assert(fs[0](field_name(v, 0)) == t.0.bindings(field_name(v, 0)));
    lemma_fields_bindings_take(v, fs, 1);
    assert(fs[1](field_name(v, 1)) == t.1.bindings(field_name(v, 1)));
    lemma_fields_bindings_take(v, fs, 2);
    assert(fs[2](field_name(v, 2)) == t.2.bindings(field_name(v, 2)));
    lemma_fields_bindings_take(v, fs, 3);
    assert(fs[3](field_name(v, 3)) == t.3.bindings(field_name(v, 3)));
    assert(fs.take(4) =~= fs);
    assert(t.bindings(v) =~= fields_bindings(v, fs));
}

/// A tuple of 5 fields bound as `v` records each field `i` under `v.i`,
/// field after field in order.
pub proof fn law_tuple5_binds_fields<A: SiteBind, B: SiteBind, C: SiteBind, D: SiteBind, E: SiteBind>(t: (A, B, C, D, E), v: Seq<char>)
    ensures
        t.bindings(v) == fields_bindings(v, seq![|n: Seq<char>| t.0.bindings(n), |n: Seq<char>| t.1.bindings(n), |n: Seq<char>| t.2.bindings(n), |n: Seq<char>| t.3.bindings(n), |n: Seq<char>| t.4.bindings(n)]),
{
    let fs = seq![|n: Seq<char>| t.0.bindings(n), |n: Seq<char>| t.1.bindings(n), |n: Seq<char>| t.2.bindings(n), |n: Seq<char>| t.3.bindings(n), |n: Seq<char>| t.4.bindings(n)];
    assert(fields_bindings(v, fs.take(0)) == Seq::<(Seq<char>, Id)>::empty());
    lemma_fields_bindings_take(v, fs, 0);
    assert(fs[0](field_name(v, 0)) == t.0.bindings(field_name(v, 0)));
    lemma_fields_bindings_take(v, fs, 1);
    assert(fs[1](field_name(v, 1)) == t.1.bindings(field_name(v, 1)));
    lemma_fields_bindings_take(v, fs, 2);
    assert(fs[2](field_name(v, 2)) == t.2.bindings(field_name(v, 2)));
    lemma_fields_bindings_take(v, fs, 3);
    assert(fs[3](field_name(v, 3)) == t.3.bindings(field_name(v, 3)));
    lemma_fields_bindings_take(v, fs, 4);
    assert(fs[4](field_name(v, 4)) == t.4.bindings(field_name(v, 4)));
    assert(fs.take(5) =~= fs);
    assert(t.bindings(v) =~= fields_bindings(v, fs));
}

/// A tuple of 6 fields bound as `v` records each field `i` under `v.i`,
/// field after field in order.
pub proof fn law_tuple6_binds_fields<A: SiteBind, B: SiteBind, C: SiteBind, D: SiteBind, E: SiteBind, F: SiteBind>(t: (A, B, C, D, E, F), v: Seq<char>)
    ensures
        t.bindings(v) == fields_bindings(v, seq![|n: Seq<char>| t.0.bindings(n), |n: Seq<char>| t.1.bindings(n), |n: Seq<char>| t.2.bindings(n), |n: Seq<char>| t.3.bindings(n), |n: Seq<char>| t.4.bindings(n), |n: Seq<char>| t.5.bindings(n)]),
{
    let fs = seq![|n: Seq<char>| t.0.bindings(n), |n: Seq<char>| t.1.bindings(n), |n: Seq<char>| t.2.bindings(n), |n: Seq<char>| t.3.bindings(n), |n: Seq<char>| t.4.bindings(n), |n: Seq<char>| t.5.bindings(n)];
    assert(fields_bindings(v, fs.take(0)) == Seq::<(Seq<char>, Id)>::empty());
    lemma_fields_bindings_take(v, fs, 0);
    assert(fs[0](field_name(v, 0)) == t.0.bindings(field_name(v, 0)));
    lemma_fields_bindings_take(v, fs, 1);
    assert(fs[1](field_name(v, 1)) == t.1.bindings(field_name(v, 1)));
    lemma_fields_bindings_take(v, fs, 2);
    assert(fs[2](field_name(v, 2)) == t.2.bindings(field_name(v, 2)));
    lemma_fields_bindings_take(v, fs, 3);
    assert(fs[3](field_name(v, 3)) == t.3.bindings(field_name(v, 3)));
    lemma_fields_bindings_take(v, fs, 4);
    assert(fs[4](field_name(v, 4)) == t.4.bindings(field_name(v, 4)));
    lemma_fields_bindings_take(v, fs, 5);
    assert(fs[5](field_name(v, 5)) == t.5.bindings(field_name(v, 5)));
    assert(fs.take(6) =~= fs);
    assert(t.bindings(v) =~= fields_bindings(v, fs));
}

/// A tuple of 7 fields bound as `v` records each field `i` under `v.i`,
/// field after field in order.
pub proof fn law_tuple7_binds_fields<A: SiteBind, B: SiteBind, C: SiteBind, D: SiteBind, E: SiteBind, F: SiteBind, G: SiteBind>(t: (A, B, C, D, E, F, G), v: Seq<char>)
    ensures
        t.bindings(v) == fields_bindings(v, seq![|n: Seq<char>| t.0.bindings(n), |n: Seq<char>| t.1.bindings(n), |n: Seq<char>| t.2.bindings(n), |n: Seq<char>| t.3.bindings(n), |n: Seq<char>| t.4.bindings(n), |n: Seq<char>| t.5.bindings(n), |n: Seq<char>| t.6.bindings(n)]),
{
    let fs = seq![|n: Seq<char>| t.0.bindings(n), |n: Seq<char>| t.1.bindings(n), |n: Seq<char>| t.2.bindings(n), |n: Seq<char>| t.3.bindings(n), |n: Seq<char>| t.4.bindings(n), |n: Seq<char>| t.5.bindings(n), |n: Seq<char>| t.6.bindings(n)];
    assert(fields_bindings(v, fs.take(0)) == Seq::<(Seq<char>, Id)>::empty());
    lemma_fields_bindings_take(v, fs, 0);
    assert(fs[0](field_name(v, 0)) == t.0.bindings(field_name(v, 0)));
    lemma_fields_bindings_take(v, fs, 1);
    assert(fs[1](field_name(v, 1)) == t.1.bindings(field_name(v, 1)));
    lemma_fields_bindings_take(v, fs, 2);
    assert(fs[2](field_name(v, 2)) == t.2.bindings(field_name(v, 2)));
    lemma_fields_bindings_take(v, fs, 3);
    assert(fs[3](field_name(v, 3)) == t.3.bindings(field_name(v, 3)));
    lemma_fields_bindings_take(v, fs, 4);
    assert(fs[4](field_name(v, 4)) == t.4.bindings(field_name(v, 4)));
    lemma_fields_bindings_take(v, fs, 5);
    assert(fs[5](field_name(v, 5)) == t.5.bindings(field_name(v, 5)));
    lemma_fields_bindings_take(v, fs, 6);
    assert(fs[6](field_name(v, 6)) == t.6.bindings(field_name(v, 6)));
    assert(fs.take(7) =~= fs);
    assert(t.bindings(v) =~= fields_bindings(v, fs));
}

/// A tuple of 8 fields bound as `v` records each field `i` under `v.i`,
/// field after field in order.
pub proof fn law_tuple8_binds_fields<A: SiteBind, B: SiteBind, C: SiteBind, D: SiteBind, E: SiteBind, F: SiteBind, G: SiteBind, H: SiteBind>(t: (A, B, C, D, E, F, G, H), v: Seq<char>)
    ensures
        t.bindings(v) == fields_bindings(v, seq![|n: Seq<char>| t.0.bindings(n), |n: Seq<char>| t.1.bindings(n), |n: Seq<char>| t.2.bindings(n), |n: Seq<char>| t.3.bindings(n), |n: Seq<char>| t.4.bindings(n), |n: Seq<char>| t.5.bindings(n), |n: Seq<char>| t.6.bindings(n), |n: Seq<char>| t.7.bindings(n)]),
{
    let fs = seq![|n: Seq<char>| t.0.bindings(n), |n: Seq<char>| t.1.bindings(n), |n: Seq<char>| t.2.bindings(n), |n: Seq<char>| t.3.bindings(n), |n: Seq<char>| t.4.bindings(n), |n: Seq<char>| t.5.bindings(n), |n: Seq<char>| t.6.bindings(n), |n: Seq<char>| t.7.bindings(n)];
    assert(fields_bindings(v, fs.take(0)) == Seq::<(Seq<char>, Id)>::empty());
    lemma_fields_bindings_take(v, fs, 0);
    assert(fs[0](field_name(v, 0)) == t.0.bindings(field_name(v, 0)));
    lemma_fields_bindings_take(v, fs, 1);
    assert(fs[1](field_name(v, 1)) == t.1.bindings(field_name(v, 1)));
    lemma_fields_bindings_take(v, fs, 2);
    assert(fs[2](field_name(v, 2)) == t.2.bindings(field_name(v, 2)));
    lemma_fields_bindings_take(v, fs, 3);
    assert(fs[3](field_name(v, 3)) == t.3.bindings(field_name(v, 3)));
    lemma_fields_bindings_take(v, fs, 4);
    assert(fs[4](field_name(v, 4)) == t.4.bindings(field_name(v, 4)));
    lemma_fields_bindings_take(v, fs, 5);
    assert(fs[5](field_name(v, 5)) == t.5.bindings(field_name(v, 5)));
    lemma_fields_bindings_take(v, fs, 6);
    assert(fs[6](field_name(v, 6)) == t.6.bindings(field_name(v, 6)));
    lemma_fields_bindings_take(v, fs, 7);
    assert(fs[7](field_name(v, 7)) == t.7.bindings(field_name(v, 7)));
    assert(fs.take(8) =~= fs);
    assert(t.bindings(v) =~= fields_bindings(v, fs));
}

/// A tuple of 9 fields bound as `v` records each field `i` under `v.i`,
/// field after field in order.
pub proof fn law_tuple9_binds_fields<A: SiteBind, B: SiteBind, C: SiteBind, D: SiteBind, E: SiteBind, F: SiteBind, G: SiteBind, H: SiteBind, I: SiteBind>(t: (A, B, C, D, E, F, G, H, I), v: Seq<char>)
    ensures
        t.bindings(v) == fields_bindings(v, seq![|n: Seq<char>| t.0.bindings(n), |n: Seq<char>| t.1.bindings(n), |n: Seq<char>| t.2.bindings(n), |n: Seq<char>| t.3.bindings(n), |n: Seq<char>| t.4.bindings(n), |n: Seq<char>| t.5.bindings(n), |n: Seq<char>| t.6.bindings(n), |n: Seq<char>| t.7.bindings(n), |n: Seq<char>| t.8.bindings(n)]),
{
    let fs = seq![|n: Seq<char>| t.0.bindings(n), |n: Seq<char>| t.1.bindings(n), |n: Seq<char>| t.2.bindings(n), |n: Seq<char>| t.3.bindings(n), |n: Seq<char>| t.4.bindings(n), |n: Seq<char>| t.5.bindings(n), |n: Seq<char>| t.6.bindings(n), |n: Seq<char>| t.7.bindings(n), |n: Seq<char>| t.8.bindings(n)];
    assert(fields_bindings(v, fs.take(0)) == Seq::<(Seq<char>, Id)>::empty());
    lemma_fields_bindings_take(v, fs, 0);
    assert(fs[0](field_name(v, 0)) == t.0.bindings(field_name(v, 0)));
    lemma_fields_bindings_take(v, fs, 1);
    assert(fs[1](field_name(v, 1)) == t.1.bindings(field_name(v, 1)));
    lemma_fields_bindings_take(v, fs, 2);
    assert(fs[2](field_name(v, 2)) == t.2.bindings(field_name(v, 2)));
    lemma_fields_bindings_take(v, fs, 3);
    assert(fs[3](field_name(v, 3)) == t.3.bindings(field_name(v, 3)));
    lemma_fields_bindings_take(v, fs, 4);
    assert(fs[4](field_name(v, 4)) == t.4.bindings(field_name(v, 4)));
    lemma_fields_bindings_take(v, fs, 5);
    assert(fs[5](field_name(v, 5)) == t.5.bindings(field_name(v, 5)));
    lemma_fields_bindings_take(v, fs, 6);
    assert(fs[6](field_name(v, 6)) == t.6.bindings(field_name(v, 6)));
    lemma_fields_bindings_take(v, fs, 7);
    assert(fs[7](field_name(v, 7)) == t.7.bindings(field_name(v, 7)));
    lemma_fields_bindings_take(v, fs, 8);
    assert(fs[8](field_name(v, 8)) == t.8.bindings(field_name(v, 8)));
    assert(fs.take(9) =~= fs);
    assert(t.bindings(v) =~= fields_bindings(v, fs));
}

/// A tuple of 10 fields bound as `v` records each field `i` under `v.i`,
/// field after field in order.
pub proof fn law_tuple10_binds_fields<A: SiteBind, B: SiteBind, C: SiteBind, D: SiteBind, E: SiteBind, F: SiteBind, G: SiteBind, H: SiteBind, I: SiteBind, J: SiteBind>(t: (A, B, C, D, E, F, G, H, I, J), v: Seq<char>)
    ensures
        t.bindings(v) == fields_bindings(v, seq![|n: Seq<char>| t.0.bindings(n), |n: Seq<char>| t.1.bindings(n), |n: Seq<char>| t.2.bindings(n), |n: Seq<char>| t.3.bindings(n), |n: Seq<char>| t.4.bindings(n), |n: Seq<char>| t.5.bindings(n), |n: Seq<char>| t.6.bindings(n), |n: Seq<char>| t.7.bindings(n), |n: Seq<char>| t.8.bindings(n), |n: Seq<char>| t.9.bindings(n)]),
{
    let fs = seq![|n: Seq<char>| t.0.bindings(n), |n: Seq<char>| t.1.bindings(n), |n: Seq<char>| t.2.bindings(n), |n: Seq<char>| t.3.bindings(n), |n: Seq<char>| t.4.bindings(n), |n: Seq<char>| t.5.bindings(n), |n: Seq<char>| t.6.bindings(n), |n: Seq<char>| t.7.bindings(n), |n: Seq<char>| t.8.bindings(n), |n: Seq<char>| t.9.bindings(n)];
    assert(fields_bindings(v, fs.take(0)) == Seq::<(Seq<char>, Id)>::empty());
    lemma_fields_bindings_take(v, fs, 0);
    assert(fs[0](field_name(v, 0)) == t.0.bindings(field_name(v, 0)));
    lemma_fields_bindings_take(v, fs, 1);
    assert(fs[1](field_name(v, 1)) == t.1.bindings(field_name(v, 1)));
    lemma_fields_bindings_take(v, fs, 2);
    assert(fs[2](field_name(v, 2)) == t.2.bindings(field_name(v, 2)));
    lemma_fields_bindings_take(v, fs, 3);
    assert(fs[3](field_name(v, 3)) == t.3.bindings(field_name(v, 3)));
    lemma_fields_bindings_take(v, fs, 4);
    assert(fs[4](field_name(v, 4)) == t.4.bindings(field_name(v, 4)));
    lemma_fields_bindings_take(v, fs, 5);
    assert(fs[5](field_name(v, 5)) == t.5.bindings(field_name(v, 5)));
    lemma_fields_bindings_take(v, fs, 6);
    assert(fs[6](field_name(v, 6)) == t.6.bindings(field_name(v, 6)));
    lemma_fields_bindings_take(v, fs, 7);
    assert(fs[7](field_name(v, 7)) == t.7.bindings(field_name(v, 7)));
    lemma_fields_bindings_take(v, fs, 8);
    assert(fs[8](field_name(v, 8)) == t.8.bindings(field_name(v, 8)));
    lemma_fields_bindings_take(v, fs, 9);
    assert(fs[9](field_name(v, 9)) == t.9.bindings(field_name(v, 9)));
    assert(fs.take(10) =~= fs);
    assert(t.bindings(v) =~= fields_bindings(v, fs));
}

/// A tuple of 11 fields bound as `v` records each field `i` under `v.i`,
/// field after field in order.
pub proof fn law_tuple11_binds_fields<A: SiteBind, B: SiteBind, C: SiteBind, D: SiteBind, E: SiteBind, F: SiteBind, G: SiteBind, H: SiteBind, I: SiteBind, J: SiteBind, K: SiteBind>(t: (A, B, C, D, E, F, G, H, I, J, K), v: Seq<char>)
    ensures
        t.bindings(v) == fields_bindings(v, seq![|n: Seq<char>| t.0.bindings(n), |n: Seq<char>| t.1.bindings(n), |n: Seq<char>| t.2.bindings(n), |n: Seq<char>| t.3.bindings(n), |n: Seq<char>| t.4.bindings(n), |n: Seq<char>| t.5.bindings(n), |n: Seq<char>| t.6.bindings(n), |n: Seq<char>| t.7.bindings(n), |n: Seq<char>| t.8.bindings(n), |n: Seq<char>| t.9.bindings(n), |n: Seq<char>| t.10.bindings(n)]),
{
    let fs = seq![|n: Seq<char>| t.0.bindings(n), |n: Seq<char>| t.1.bindings(n), |n: Seq<char>| t.2.bindings(n), |n: Seq<char>| t.3.bindings(n), |n: Seq<char>| t.4.bindings(n), |n: Seq<char>| t.5.bindings(n), |n: Seq<char>| t.6.bindings(n), |n: Seq<char>| t.7.bindings(n), |n: Seq<char>| t.8.bindings(n), |n: Seq<char>| t.9.bindings(n), |n: Seq<char>| t.10.bindings(n)];
    assert(fields_bindings(v, fs.take(0)) == Seq::<(Seq<char>, Id)>::empty());
    lemma_fields_bindings_take(v, fs, 0);
    assert(fs[0](field_name(v, 0)) == t.0.bindings(field_name(v, 0)));
    lemma_fields_bindings_take(v, fs, 1);
    assert(fs[1](field_name(v, 1)) == t.1.bindings(field_name(v, 1)));
    lemma_fields_bindings_take(v, fs, 2);
    assert(fs[2](field_name(v, 2)) == t.2.bindings(field_name(v, 2)));
    lemma_fields_bindings_take(v, fs, 3);
    assert(fs[3](field_name(v, 3)) == t.3.bindings(field_name(v, 3)));
    lemma_fields_bindings_take(v, fs, 4);
    assert(fs[4](field_name(v, 4)) == t.4.bindings(field_name(v, 4)));
    lemma_fields_bindings_take(v, fs, 5);
    assert(fs[5](field_name(v, 5)) == t.5.bindings(field_name(v, 5)));
    lemma_fields_bindings_take(v, fs, 6);
    assert(fs[6](field_name(v, 6)) == t.6.bindings(field_name(v, 6)));
    lemma_fields_bindings_take(v, fs, 7);
    assert(fs[7](field_name(v, 7)) == t.7.bindings(field_name(v, 7)));
    lemma_fields_bindings_take(v, fs, 8);
    assert(fs[8](field_name(v, 8)) == t.8.bindings(field_name(v, 8)));
    lemma_fields_bindings_take(v, fs, 9);
    assert(fs[9](field_name(v, 9)) == t.9.bindings(field_name(v, 9)));
    lemma_fields_bindings_take(v, fs, 10);
    assert(fs[10](field_name(v, 10)) == t.10.bindings(field_name(v, 10)));
    assert(fs.take(11) =~= fs);
    assert(t.bindings(v) =~= fields_bindings(v, fs));
}

/// A tuple of 12 fields bound as `v` records each field `i` under `v.i`,
/// field after field in order.
pub proof fn law_tuple12_binds_fields<A: SiteBind, B: SiteBind, C: SiteBind, D: SiteBind, E: SiteBind, F: SiteBind, G: SiteBind, H: SiteBind, I: SiteBind, J: SiteBind, K: SiteBind, L: SiteBind>(t: (A, B, C, D, E, F, G, H, I, J, K, L), v: Seq<char>)
    ensures
        t.bindings(v) == fields_bindings(v, seq![|n: Seq<char>| t.0.bindings(n), |n: Seq<char>| t.1.bindings(n), |n: Seq<char>| t.2.bindings(n), |n: Seq<char>| t.3.bindings(n), |n: Seq<char>| t.4.bindings(n), |n: Seq<char>| t.5.bindings(n), |n: Seq<char>| t.6.bindings(n), |n: Seq<char>| t.7.bindings(n), |n: Seq<char>| t.8.bindings(n), |n: Seq<char>| t.9.bindings(n), |n: Seq<char>| t.10.bindings(n), |n: Seq<char>| t.11.bindings(n)]),
{
    let fs = seq![|n: Seq<char>| t.0.bindings(n), |n: Seq<char>| t.1.bindings(n), |n: Seq<char>| t.2.bindings(n), |n: Seq<char>| t.3.bindings(n), |n: Seq<char>| t.4.bindings(n), |n: Seq<char>| t.5.bindings(n), |n: Seq<char>| t.6.bindings(n), |n: Seq<char>| t.7.bindings(n), |n: Seq<char>| t.8.bindings(n), |n: Seq<char>| t.9.bindings(n), |n: Seq<char>| t.10.bindings(n), |n: Seq<char>| t.11.bindings(n)];
    assert(fields_bindings(v, fs.take(0)) == Seq::<(Seq<char>, Id)>::empty());
    lemma_fields_bindings_take(v, fs, 0);
    assert(fs[0](field_name(v, 0)) == t.0.bindings(field_name(v, 0)));
    lemma_fields_bindings_take(v, fs, 1);
    assert(fs[1](field_name(v, 1)) == t.1.bindings(field_name(v, 1)));
    lemma_fields_bindings_take(v, fs, 2);
    assert(fs[2](field_name(v, 2)) == t.2.bindings(field_name(v, 2)));
    lemma_fields_bindings_take(v, fs, 3);
    assert(fs[3](field_name(v, 3)) == t.3.bindings(field_name(v, 3)));
    lemma_fields_bindings_take(v, fs, 4);
    assert(fs[4](field_name(v, 4)) == t.4.bindings(field_name(v, 4)));
    lemma_fields_bindings_take(v, fs, 5);
    assert(fs[5](field_name(v, 5)) == t.5.bindings(field_name(v, 5)));
    lemma_fields_bindings_take(v, fs, 6);
    assert(fs[6](field_name(v, 6)) == t.6.bindings(field_name(v, 6)));
    lemma_fields_bindings_take(v, fs, 7);
    assert(fs[7](field_name(v, 7)) == t.7.bindings(field_name(v, 7)));
    lemma_fields_bindings_take(v, fs, 8);
    assert(fs[8](field_name(v, 8)) == t.8.bindings(field_name(v, 8)));
    lemma_fields_bindings_take(v, fs, 9);
    assert(fs[9](field_name(v, 9)) == t.9.bindings(field_name(v, 9)));
    lemma_fields_bindings_take(v, fs, 10);
    assert(fs[10](field_name(v, 10)) == t.10.bindings(field_name(v, 10)));
    lemma_fields_bindings_take(v, fs, 11);
    assert(fs[11](field_name(v, 11)) == t.11.bindings(field_name(v, 11)));
    assert(fs.take(12) =~= fs);
    assert(t.bindings(v) =~= fields_bindings(v, fs));
}

/// A tuple of 13 fields bound as `v` records each field `i` under `v.i`,
/// field after field in order.
pub proof fn law_tuple13_binds_fields<A: SiteBind, B: SiteBind, C: SiteBind, D: SiteBind, E: SiteBind, F: SiteBind, G: SiteBind, H: SiteBind, I: SiteBind, J: SiteBind, K: SiteBind, L: SiteBind, M: SiteBind>(t: (A, B, C, D, E, F, G, H, I, J, K, L, M), v: Seq<char>)
    ensures
        t.bindings(v) == fields_bindings(v, seq![|n: Seq<char>| t.0.bindings(n), |n: Seq<char>| t.1.bindings(n), |n: Seq<char>| t.2.bindings(n), |n: Seq<char>| t.3.bindings(n), |n: Seq<char>| t.4.bindings(n), |n: Seq<char>| t.5.bindings(n), |n: Seq<char>| t.6.bindings(n), |n: Seq<char>| t.7.bindings(n), |n: Seq<char>| t.8.bindings(n), |n: Seq<char>| t.9.bindings(n), |n: Seq<char>| t.10.bindings(n), |n: Seq<char>| t.11.bindings(n), |n: Seq<char>| t.12.bindings(n)]),
{
    let fs = seq![|n: Seq<char>| t.0.bindings(n), |n: Seq<char>| t.1.bindings(n), |n: Seq<char>| t.2.bindings(n), |n: Seq<char>| t.3.bindings(n), |n: Seq<char>| t.4.bindings(n), |n: Seq<char>| t.5.bindings(n), |n: Seq<char>| t.6.bindings(n), |n: Seq<char>| t.7.bindings(n), |n: Seq<char>| t.8.bindings(n), |n: Seq<char>| t.9.bindings(n), |n: Seq<char>| t.10.bindings(n), |n: Seq<char>| t.11.bindings(n), |n: Seq<char>| t.12.bindings(n)];
    assert(fields_bindings(v, fs.take(0)) == Seq::<(Seq<char>, Id)>::empty());
    lemma_fields_bindings_take(v, fs, 0);
    assert(fs[0](field_name(v, 0)) == t.0.bindings(field_name(v, 0)));
    lemma_fields_bindings_take(v, fs, 1);
    assert(fs[1](field_name(v, 1)) == t.1.bindings(field_name(v, 1)));
    lemma_fields_bindings_take(v, fs, 2);
    assert(fs[2](field_name(v, 2)) == t.2.bindings(field_name(v, 2)));
    lemma_fields_bindings_take(v, fs, 3);
    assert(fs[3](field_name(v, 3)) == t.3.bindings(field_name(v, 3)));
    lemma_fields_bindings_take(v, fs, 4);
    assert(fs[4](field_name(v, 4)) == t.4.bindings(field_name(v, 4)));
    lemma_fields_bindings_take(v, fs, 5);
    assert(fs[5](field_name(v, 5)) == t.5.bindings(field_name(v, 5)));
    lemma_fields_bindings_take(v, fs, 6);
    assert(fs[6](field_name(v, 6)) == t.6.bindings(field_name(v, 6)));
    lemma_fields_bindings_take(v, fs, 7);
    assert(fs[7](field_name(v, 7)) == t.7.bindings(field_name(v, 7)));
    lemma_fields_bindings_take(v, fs, 8);
    assert(fs[8](field_name(v, 8)) == t.8.bindings(field_name(v, 8)));
    lemma_fields_bindings_take(v, fs, 9);
    assert(fs[9](field_name(v, 9)) == t.9.bindings(field_name(v, 9)));
    lemma_fields_bindings_take(v, fs, 10);
    assert(fs[10](field_name(v, 10)) == t.10.bindings(field_name(v, 10)));
    lemma_fields_bindings_take(v, fs, 11);
    assert(fs[11](field_name(v, 11)) == t.11.bindings(field_name(v, 11)));
    lemma_fields_bindings_take(v, fs, 12);
    assert(fs[12](field_name(v, 12)) == t.12.bindings(field_name(v, 12)));
    assert(fs.take(13) =~= fs);
    assert(t.bindings(v) =~= fields_bindings(v, fs));
}

} // verus!
