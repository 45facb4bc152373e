//! Header collections and the response-header pipeline.
//!
//! A [`Headers`] value is an insertion-ordered collection of `name: value`
//! pairs in which names are unique up to ASCII case. Its mathematical model
//! is a `Map` from case-folded name to value. The response pipeline lays
//! configured static headers down first and then overlays the request
//! headers whose names are configured for echoing, so an echoed header
//! replaces a static header of the same name.

use vstd::prelude::*;

use crate::ascii::{clone_bytes, eq_lowered, lower};

verus! {

/// Views of an entry sequence: each pair of byte vectors as a pair of
/// byte sequences.
pub open spec fn entry_views(s: Seq<(Vec<u8>, Vec<u8>)>) -> Seq<(Seq<u8>, Seq<u8>)> {
    s.map_values(|p: (Vec<u8>, Vec<u8>)| (p.0@, p.1@))
}

/// The contents of an entry sequence as a map from case-folded name to
/// value; a later entry overwrites an earlier one of the same name.
pub open spec fn map_of(s: Seq<(Seq<u8>, Seq<u8>)>) -> Map<Seq<u8>, Seq<u8>>
    decreases s.len(),
{
    if s.len() == 0 {
        Map::empty()
    } else {
        map_of(s.drop_last()).insert(lower(s.last().0), s.last().1)
    }
}

/// No two entries share a case-folded name.
pub open spec fn distinct_names(s: Seq<(Seq<u8>, Seq<u8>)>) -> bool {
    forall|i: int, j: int| 0 <= i < j < s.len() ==> lower(s[i].0) != lower(s[j].0)
}

/// An ordered header collection whose names are unique up to ASCII case.
pub struct Headers {
    entries: Vec<(Vec<u8>, Vec<u8>)>,
}

impl Headers {
    /// The entries in insertion order, names spelled as they were given.
    pub closed spec fn entries_seq(&self) -> Seq<(Seq<u8>, Seq<u8>)> {
        entry_views(self.entries@)
    }

    /// Well-formedness: entry names are unique up to ASCII case.
    pub open spec fn wf(&self) -> bool {
        distinct_names(self.entries_seq())
    }

    /// The collection as a map from case-folded name to value.
    pub open spec fn as_map(&self) -> Map<Seq<u8>, Seq<u8>> {
        map_of(self.entries_seq())
    }

    /// An empty header collection.
    pub fn new() -> (r: Headers)
        ensures
            r.wf(),
            r.as_map() == Map::<Seq<u8>, Seq<u8>>::empty(),
            r.entries_seq() == Seq::<(Seq<u8>, Seq<u8>)>::empty(),
    {
        let r = Headers { entries: Vec::new() };
        proof {
            assert(r.entries_seq() =~= Seq::<(Seq<u8>, Seq<u8>)>::empty());
        }
        r
    }

    /// The number of entries.
    pub fn len(&self) -> (r: usize)
        ensures
            r == self.entries_seq().len(),
    {
        self.entries.len()
    }

    /// The entry at position `i`, as it will appear on the wire.
    pub fn entry_at(&self, i: usize) -> (r: (&Vec<u8>, &Vec<u8>))
        requires
            i < self.entries_seq().len(),
        ensures
            (r.0@, r.1@) == self.entries_seq()[i as int],
    {
        (&self.entries[i].0, &self.entries[i].1)
    }

    /// The position of the entry whose name case-folds like `name`, if any.
    fn find_name(&self, name: &Vec<u8>) -> (r: Option<usize>)
        ensures
            match r {
                Some(i) => i < self.entries_seq().len() && lower(self.entries_seq()[i as int].0)
                    == lower(name@),
                None => forall|j: int|
                    0 <= j < self.entries_seq().len() ==> lower(self.entries_seq()[j].0) != lower(
                        name@,
                    ),
            },
    {
        let n = self.entries.len();
        let mut i: usize = 0;
        while i < n
            invariant
                n == self.entries@.len(),
                0 <= i <= n,
                forall|j: int| 0 <= j < i ==> lower(self.entries_seq()[j].0) != lower(name@),
            decreases n - i,
        {
            if eq_lowered(&self.entries[i].0, name) {
                return Some(i);
            }
            i = i + 1;
        }
        None
    }

    /// Inserts `name: value`, replacing any entry whose name case-folds
    /// like `name`.
    pub fn insert(&mut self, name: Vec<u8>, value: Vec<u8>)
        requires
            old(self).wf(),
        ensures
            final(self).wf(),
            final(self).as_map() == old(self).as_map().insert(lower(name@), value@),
    {
        let ghost pre = self.entries_seq();
        let found = self.find_name(&name);
        match found {
            Some(i) => {
                let ghost gname = name@;
                let ghost gvalue = value@;
                self.entries[i] = (name, value);
                proof {
                    assert(self.entries_seq() =~= pre.update(i as int, (gname, gvalue)));
                    lemma_map_of_update(pre, i as int, gname, gvalue);
                }
            },
            None => {
                let ghost gname = name@;
                let ghost gvalue = value@;
                self.entries.push((name, value));
                proof {
                    assert(self.entries_seq() =~= pre.push((gname, gvalue)));
                    assert(self.entries_seq().drop_last() =~= pre);
                }
            },
        }
    }

    /// The value stored under `name`, compared case-insensitively.
    pub fn get(&self, name: &Vec<u8>) -> (r: Option<&Vec<u8>>)
        requires
            self.wf(),
        ensures
            match r {
                Some(v) => self.as_map().contains_key(lower(name@)) && v@ == self.as_map()[lower(
                    name@,
                )],
                None => !self.as_map().contains_key(lower(name@)),
            },
    {
        let found = self.find_name(name);
        match found {
            Some(i) => {
                proof {
                    lemma_map_of_contains(self.entries_seq(), i as int);
                }
                Some(&self.entries[i].1)
            },
            None => {
                proof {
                    if self.as_map().contains_key(lower(name@)) {
                        lemma_map_of_key_has_index(self.entries_seq(), lower(name@));
                    }
                }
                None
            },
        }
    }
}

/// Every entry of a sequence with distinct names appears in its map.
proof fn lemma_map_of_contains(s: Seq<(Seq<u8>, Seq<u8>)>, i: int)
    requires
        distinct_names(s),
        0 <= i < s.len(),
    ensures
        map_of(s).contains_pair(lower(s[i].0), s[i].1),
    decreases s.len(),
{
    if i == s.len() - 1 {
    } else {
        assert(distinct_names(s.drop_last()));
        assert(s.drop_last()[i] == s[i]);
        lemma_map_of_contains(s.drop_last(), i);
        assert(lower(s[i].0) != lower(s[s.len() - 1].0));
    }
}

/// Every key of the map comes from some entry of the sequence.
proof fn lemma_map_of_key_has_index(s: Seq<(Seq<u8>, Seq<u8>)>, k: Seq<u8>)
    requires
        map_of(s).contains_key(k),
    ensures
        exists|i: int| 0 <= i < s.len() && lower(s[i].0) == k,
    decreases s.len(),
{
    if s.len() == 0 {
    } else if lower(s.last().0) == k {
        assert(0 <= s.len() - 1 < s.len() && lower(s[s.len() - 1].0) == k);
    } else {
        lemma_map_of_key_has_index(s.drop_last(), k);
        let i = choose|i: int| 0 <= i < s.drop_last().len() && lower(s.drop_last()[i].0) == k;
        assert(0 <= i < s.len() && lower(s[i].0) == k);
    }
}

/// Replacing the entry that holds a name updates the map at that name.
proof fn lemma_map_of_update(s: Seq<(Seq<u8>, Seq<u8>)>, i: int, name: Seq<u8>, value: Seq<u8>)
    requires
        distinct_names(s),
        0 <= i < s.len(),
        lower(name) == lower(s[i].0),
    ensures
        map_of(s.update(i, (name, value))) == map_of(s).insert(lower(name), value),
    decreases s.len(),
{
    let t = s.update(i, (name, value));
    if i == s.len() - 1 {
        assert(t.drop_last() =~= s.drop_last());
        assert(t.last() == (name, value));
        assert(map_of(t) =~= map_of(s).insert(lower(name), value));
    } else {
        assert(t.drop_last() =~= s.drop_last().update(i, (name, value)));
        assert(t.last() == s.last());
        assert(distinct_names(s.drop_last()));
        assert(s.drop_last()[i] == s[i]);
        lemma_map_of_update(s.drop_last(), i, name, value);
        assert(lower(name) != lower(s.last().0));
        assert(map_of(t) =~= map_of(s).insert(lower(name), value));
    }
}

/// The set of case-folded names configured for echoing.
pub open spec fn echo_set(names: Seq<Vec<u8>>) -> Set<Seq<u8>> {
    Set::new(|k: Seq<u8>| exists|i: int| 0 <= i < names.len() && lower(names[i]@) == k)
}

/// True exactly when `name` case-folds like one of the configured echo
/// names.
pub fn is_echoed(names: &Vec<Vec<u8>>, name: &Vec<u8>) -> (r: bool)
    ensures
        r == echo_set(names@).contains(lower(name@)),
{
    let n = names.len();
    let mut i: usize = 0;
    while i < n
        invariant
            n == names@.len(),
            0 <= i <= n,
            forall|j: int| 0 <= j < i ==> lower(names@[j]@) != lower(name@),
        decreases n - i,
    {
        if eq_lowered(&names[i], name) {
            assert(echo_set(names@).contains(lower(name@)));
            return true;
        }
        i = i + 1;
    }
    assert(!echo_set(names@).contains(lower(name@)));
    false
}

/// A base map with the echoed entries of a request laid over it, in
/// request order.
pub open spec fn overlay_echoed(
    m: Map<Seq<u8>, Seq<u8>>,
    s: Seq<(Seq<u8>, Seq<u8>)>,
    e: Set<Seq<u8>>,
) -> Map<Seq<u8>, Seq<u8>>
    decreases s.len(),
{
    if s.len() == 0 {
        m
    } else {
        let prev = overlay_echoed(m, s.drop_last(), e);
        if e.contains(lower(s.last().0)) {
            prev.insert(lower(s.last().0), s.last().1)
        } else {
            prev
        }
    }
}

/// Laying the echoed entries over a base map yields the base map with the
/// echoed part of the request map preferred on conflicts.
proof fn lemma_overlay_echoed(m: Map<Seq<u8>, Seq<u8>>, s: Seq<(Seq<u8>, Seq<u8>)>, e: Set<Seq<u8>>)
    ensures
        overlay_echoed(m, s, e) == m.union_prefer_right(map_of(s).restrict(e)),
    decreases s.len(),
{
    if s.len() == 0 {
        assert(overlay_echoed(m, s, e) =~= m.union_prefer_right(map_of(s).restrict(e)));
    } else {
        let d = s.drop_last();
        let k = lower(s.last().0);
        let v = s.last().1;
        lemma_overlay_echoed(m, d, e);
        if e.contains(k) {
            assert(m.union_prefer_right(map_of(d).restrict(e)).insert(k, v)
                =~= m.union_prefer_right(map_of(d).insert(k, v).restrict(e)));
        } else {
            assert(m.union_prefer_right(map_of(d).restrict(e)) =~= m.union_prefer_right(
                map_of(d).insert(k, v).restrict(e),
            ));
        }
    }
}

/// Builds the response headers: the configured static headers first, then
/// every request header whose name is configured for echoing, so an echoed
/// header replaces a static header of the same name.
pub fn build_response_headers(
    statics: &Headers,
    echo_names: &Vec<Vec<u8>>,
    request: &Headers,
) -> (r: Headers)
    ensures
        r.wf(),
        r.as_map() == statics.as_map().union_prefer_right(
            request.as_map().restrict(echo_set(echo_names@)),
        ),
{
    let mut r = Headers::new();
    let sn = statics.entries.len();
    let mut i: usize = 0;
    proof {
        assert(statics.entries_seq().take(0) =~= Seq::<(Seq<u8>, Seq<u8>)>::empty());
    }
    while i < sn
        invariant
            sn == statics.entries@.len(),
            0 <= i <= sn,
            r.wf(),
            r.as_map() == map_of(statics.entries_seq().take(i as int)),
        decreases sn - i,
    {
        let name = clone_bytes(&statics.entries[i].0);
        let value = clone_bytes(&statics.entries[i].1);
        r.insert(name, value);
        proof {
            let pre = statics.entries_seq().take(i as int);
            let post = statics.entries_seq().take(i + 1);
            assert(post.drop_last() =~= pre);
            assert(post.last() == statics.entries_seq()[i as int]);
        }
        i = i + 1;
    }
    proof {
        assert(statics.entries_seq().take(sn as int) =~= statics.entries_seq());
    }
    let ghost e = echo_set(echo_names@);
    let rn = request.entries.len();
    let mut j: usize = 0;
    proof {
        assert(request.entries_seq().take(0) =~= Seq::<(Seq<u8>, Seq<u8>)>::empty());
    }
    while j < rn
        invariant
            rn == request.entries@.len(),
            0 <= j <= rn,
            r.wf(),
            e == echo_set(echo_names@),
            r.as_map() == overlay_echoed(statics.as_map(), request.entries_seq().take(j as int), e),
        decreases rn - j,
    {
        proof {
            let pre = request.entries_seq().take(j as int);
            let post = request.entries_seq().take(j + 1);
            assert(post.drop_last() =~= pre);
            assert(post.last() == request.entries_seq()[j as int]);
        }
        if is_echoed(echo_names, &request.entries[j].0) {
            let name = clone_bytes(&request.entries[j].0);
            let value = clone_bytes(&request.entries[j].1);
            r.insert(name, value);
        }
        j = j + 1;
    }
    proof {
        assert(request.entries_seq().take(rn as int) =~= request.entries_seq());
        lemma_overlay_echoed(statics.as_map(), request.entries_seq(), e);
    }
    r
}

/// An echoed request header wins over a static header of the same name:
/// whenever a name is configured for echoing and present on the request,
/// the response carries the request's value for it.
pub proof fn lemma_echo_overrides_static(
    statics: Map<Seq<u8>, Seq<u8>>,
    e: Set<Seq<u8>>,
    request: Map<Seq<u8>, Seq<u8>>,
    k: Seq<u8>,
)
    requires
        e.contains(k),
        request.contains_key(k),
    ensures
        statics.union_prefer_right(request.restrict(e)).contains_key(k),
        statics.union_prefer_right(request.restrict(e))[k] == request[k],
{
}

/// A static header is kept whenever the request does not echo over it, and
/// the response holds no name beyond the static names and the echoed
/// request names.
pub proof fn lemma_static_header_kept(
    statics: Map<Seq<u8>, Seq<u8>>,
    e: Set<Seq<u8>>,
    request: Map<Seq<u8>, Seq<u8>>,
    k: Seq<u8>,
)
    requires
        statics.contains_key(k),
        !(e.contains(k) && request.contains_key(k)),
    ensures
        statics.union_prefer_right(request.restrict(e)).contains_key(k),
        statics.union_prefer_right(request.restrict(e))[k] == statics[k],
{
}

/// The response's names are exactly the static names together with the
/// echoed request names.
pub proof fn lemma_response_domain(
    statics: Map<Seq<u8>, Seq<u8>>,
    e: Set<Seq<u8>>,
    request: Map<Seq<u8>, Seq<u8>>,
)
    ensures
        statics.union_prefer_right(request.restrict(e)).dom() == statics.dom().union(
            request.dom().intersect(e),
        ),
{
    assert(statics.union_prefer_right(request.restrict(e)).dom() =~= statics.dom().union(
        request.dom().intersect(e),
    ));
}

} // verus!
