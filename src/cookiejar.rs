//! A collection of cookies keyed by name, and its rendering as a `Cookie:`
//! header value.
use vstd::prelude::*;

use itertools::Itertools;
use vstd::hash_map::StringHashMap;

use crate::crypto::{KeyRing, KeyRingView};
use crate::{Cookie, CookieError, ErrorView};

verus! {

/// std's order of strings: lexicographic by code point.
pub open spec fn name_le(a: Seq<char>, b: Seq<char>) -> bool
    decreases a.len(),
{
    if a.len() == 0 {
        true
    } else if b.len() == 0 {
        false
    } else if a[0] != b[0] {
        (a[0] as u32) < (b[0] as u32)
    } else {
        name_le(a.drop_first(), b.drop_first())
    }
}

/// The texts of a sequence of strings.
pub open spec fn texts(v: Seq<String>) -> Seq<Seq<char>> {
    v.map_values(|s: String| s@)
}

/// Relies on `itertools::Itertools::sorted`: the same strings, ordered by
/// std's order of `String`, which is lexicographic by code point.
#[verifier::external_body]
fn sorted_names(names: &Vec<String>) -> (r: Vec<String>)
    ensures
        texts(r@).to_multiset() == texts(names@).to_multiset(),
        forall|i: int, j: int| 0 <= i < j < r@.len() ==> name_le(#[trigger] r@[i]@, #[trigger] r@[j]@),
{
    names.iter().cloned().sorted().collect()
}

/// `ks` lists the names of `dom` once each, in order.
pub open spec fn is_listing(ks: Seq<Seq<char>>, dom: Set<Seq<char>>) -> bool {
    &&& ks.no_duplicates()
    &&& ks.to_set() == dom
    &&& forall|i: int, j: int| 0 <= i < j < ks.len() ==> name_le(#[trigger] ks[i], #[trigger] ks[j])
}

/// A value as the header shows it: a value that cannot be read shows empty.
pub open spec fn shown(v: Result<Seq<char>, ErrorView>) -> Seq<char> {
    match v {
        Ok(s) => s,
        Err(_) => Seq::empty(),
    }
}

/// `name=value`
pub open spec fn pair_text(name: Seq<char>, value: Seq<char>) -> Seq<char> {
    name + seq!['='] + value
}

/// The cookies of `m` named in `ks`, in that order, as `name=value` pairs
/// joined by `; `.
pub open spec fn header_text<C: Cookie>(
    ks: Seq<Seq<char>>,
    m: Map<Seq<char>, C>,
    keys: KeyRingView,
) -> Seq<char>
    decreases ks.len(),
{
    if ks.len() == 0 {
        Seq::empty()
    } else {
        let last = pair_text(ks.last(), shown(m[ks.last()].value_view(keys)));
        if ks.len() == 1 {
            last
        } else {
            header_text(ks.drop_last(), m, keys) + seq![';', ' '] + last
        }
    }
}

/// Cookies keyed by name; adding a name again replaces its cookie.
#[verifier::reject_recursive_types(C)]
pub struct CookieJar<C> {
    names: Vec<String>,
    cookies: StringHashMap<C>,
}

impl<C> View for CookieJar<C> {
    type V = Map<Seq<char>, C>;

    closed spec fn view(&self) -> Map<Seq<char>, C> {
        self.cookies@
    }
}

impl<C: Cookie> CookieJar<C> {
    /// The name list holds each key of the map once.
    pub closed spec fn wf(&self) -> bool {
        &&& texts(self.names@).no_duplicates()
        &&& texts(self.names@).to_set() == self.cookies@.dom()
    }

    /// An empty jar.
    pub fn new() -> (r: CookieJar<C>)
        ensures
            r.wf(),
            r@ == Map::<Seq<char>, C>::empty(),
    {
        let r = CookieJar { names: Vec::new(), cookies: StringHashMap::new() };
        assert(texts(r.names@) =~= Seq::<Seq<char>>::empty());
        assert(texts(r.names@).to_set() =~= Set::<Seq<char>>::empty());
        r
    }

    /// How many cookies the jar holds.
    pub fn len(&self) -> (r: usize)
        ensures
            r == self@.len(),
    {
        self.cookies.len()
    }

    /// The cookie of the given name.
    pub fn get(&self, name: &str) -> (r: Option<&C>)
        ensures
            match r {
                Some(c) => self@.contains_key(name@) && *c == self@[name@],
                None => !self@.contains_key(name@),
            },
    {
        self.cookies.get(name)
    }

    /// Adds a cookie under `key`, replacing the one that had that name.
    pub fn add_cookie(&mut self, key: String, value: Box<C>)
        requires
            old(self).wf(),
        ensures
            final(self).wf(),
            final(self)@ == old(self)@.insert(key@, *value),
    {
        if !self.cookies.contains_key(key.as_str()) {
            let name = key.clone();
            self.names.push(name);
            proof {
                let old_texts = texts(old(self).names@);
                assert(texts(self.names@) =~= old_texts.push(key@));
                assert(!old_texts.contains(key@));
                old_texts.lemma_push_to_set_commute(key@);
                assert(texts(self.names@).no_duplicates()) by {
                    let t = texts(self.names@);
                    assert forall|i: int, j: int| 0 <= i < t.len() && 0 <= j < t.len() && i != j implies t[i] != t[j] by {
                        if j == t.len() - 1 {
                            assert(old_texts.contains(t[i]));
                        } else if i == t.len() - 1 {
                            assert(old_texts.contains(t[j]));
                        }
                    }
                }
            }
        }
        self.cookies.insert(key, *value);
        proof {
            assert(self.cookies@.dom() =~= old(self).cookies@.dom().insert(key@));
            if old(self).cookies@.contains_key(key@) {
                assert(old(self).cookies@.dom().insert(key@) =~= old(self).cookies@.dom());
            }
        }
    }

    /// The names, sorted, seen as a listing of the jar's keys.
    proof fn lemma_sorted_listing(&self, sorted: Seq<String>)
        requires
            self.wf(),
            texts(sorted).to_multiset() == texts(self.names@).to_multiset(),
            forall|i: int, j: int| 0 <= i < j < sorted.len() ==> name_le(#[trigger] sorted[i]@, #[trigger] sorted[j]@),
        ensures
            is_listing(texts(sorted), self@.dom()),
    {
        let ks = texts(sorted);
        let ns = texts(self.names@);
        broadcast use vstd::seq_lib::group_to_multiset_ensures;

        ns.lemma_multiset_has_no_duplicates();
        ks.lemma_multiset_has_no_duplicates_conv();
        assert(ks.to_set() =~= ns.to_set()) by {
            assert forall|x: Seq<char>| ks.contains(x) <==> ns.contains(x) by {
                assert(ks.contains(x) <==> ks.to_multiset().count(x) > 0);
                assert(ns.contains(x) <==> ns.to_multiset().count(x) > 0);
            }
        }
        assert forall|i: int, j: int| 0 <= i < j < ks.len() implies name_le(#[trigger] ks[i], #[trigger] ks[j]) by {
            assert(name_le(sorted[i]@, sorted[j]@));
        }
    }

    /// The names in the jar, sorted, each once.
    pub fn names(&self) -> (r: Vec<String>)
        requires
            self.wf(),
        ensures
            is_listing(texts(r@), self@.dom()),
    {
        let sorted = sorted_names(&self.names);
        proof {
            self.lemma_sorted_listing(sorted@);
        }
        sorted
    }

    /// The jar as a `Cookie:` header value: `name=value` pairs sorted by name
    /// and joined by `; `, empty for an empty jar. A value that cannot be
    /// decrypted shows empty. Fails only where a value needs the per-machine
    /// key and that key has not been fetched yet.
    pub fn render_header(&self, keys: &KeyRing) -> (r: Result<String, CookieError>)
        requires
            self.wf(),
        ensures
            match r {
                Ok(s) => {
                    &&& forall|k: Seq<char>| #[trigger] self@.contains_key(k) ==> self@[k].value_view(keys@)
                        != Err::<Seq<char>, ErrorView>(ErrorView::SecretNotLoaded)
                    &&& exists|ks: Seq<Seq<char>>| is_listing(ks, self@.dom()) && s@ == header_text(ks, self@, keys@)
                },
                Err(e) => {
                    &&& e@ == ErrorView::SecretNotLoaded
                    &&& exists|k: Seq<char>| #[trigger] self@.contains_key(k) && self@[k].value_view(keys@)
                        == Err::<Seq<char>, ErrorView>(ErrorView::SecretNotLoaded)
                },
            },
            !(keys@.v11 is Pending) ==> r is Ok,
    {
        let sorted = sorted_names(&self.names);
        proof {
            self.lemma_sorted_listing(sorted@);
        }
        let ghost ks = texts(sorted@);
        let mut out = String::new();
        let mut i: usize = 0;
        while i < sorted.len()
            invariant
                self.wf(),
                ks == texts(sorted@),
                is_listing(ks, self@.dom()),
                i <= sorted@.len(),
                out@ == header_text(ks.take(i as int), self@, keys@),
                forall|j: int| 0 <= j < i ==> self@[#[trigger] ks[j]].value_view(keys@)
                    != Err::<Seq<char>, ErrorView>(ErrorView::SecretNotLoaded),
            decreases sorted@.len() - i,
        {
            let name = &sorted[i];
            assert(ks.to_set().contains(ks[i as int]));
            let cookie = match self.cookies.get(name.as_str()) {
                Some(c) => c,
                None => unreached(),
            };
            let value = cookie.value(keys);
            let shown_value = match value {
                Ok(v) => v,
                Err(CookieError::SecretNotLoaded) => {
                    proof {
                        cookie.lemma_secret_only_while_pending(keys@);
                    }
                    return Err(CookieError::SecretNotLoaded);
                },
                Err(_) => String::new(),
            };
            if i > 0 {
                out.append("; ");
            }
            out.append(name.as_str());
            out.append("=");
            out.append(shown_value.as_str());
            proof {
                let prefix = ks.take(i + 1);
                assert(prefix.drop_last() =~= ks.take(i as int));
                assert(prefix.last() == ks[i as int]);
                reveal_strlit("; ");
                reveal_strlit("=");
                assert(out@ =~= header_text(prefix, self@, keys@));
            }
            i = i + 1;
        }
        proof {
            assert(ks.take(i as int) =~= ks);
            assert forall|k: Seq<char>| #[trigger] self@.contains_key(k) implies self@[k].value_view(keys@)
                != Err::<Seq<char>, ErrorView>(ErrorView::SecretNotLoaded) by {
                assert(ks.to_set().contains(k));
                let j = choose|j: int| 0 <= j < ks.len() && ks[j] == k;
            }
        }
        Ok(out)
    }
}

impl<C: Cookie> Default for CookieJar<C> {
    fn default() -> (r: CookieJar<C>)
        ensures
            r.wf(),
            r@ == Map::<Seq<char>, C>::empty(),
    {
        CookieJar::new()
    }
}

/// An empty jar renders as the empty string.
pub proof fn lemma_empty_jar_renders_empty<C: Cookie>(
    ks: Seq<Seq<char>>,
    m: Map<Seq<char>, C>,
    keys: KeyRingView,
)
    requires
        m.dom() == Set::<Seq<char>>::empty(),
        is_listing(ks, m.dom()),
    ensures
        header_text(ks, m, keys) == Seq::<char>::empty(),
{
    if ks.len() > 0 {
        assert(ks.to_set().contains(ks[0]));
    }
}

/// Adding a name that is already in the jar replaces its cookie: the names
/// stay the same and the new cookie is the one kept.
pub proof fn lemma_readd_replaces<C>(m: Map<Seq<char>, C>, k: Seq<char>, first: C, second: C)
    ensures
        m.insert(k, first).insert(k, second) == m.insert(k, second),
        m.insert(k, first).insert(k, second).dom() == m.insert(k, first).dom(),
        m.insert(k, first).insert(k, second).len() == m.insert(k, first).len(),
{
    assert(m.insert(k, first).insert(k, second) =~= m.insert(k, second));
    assert(m.insert(k, first).insert(k, second).dom() =~= m.insert(k, first).dom());
}

/// Every name is ordered before or at itself.
pub proof fn lemma_name_le_reflexive(a: Seq<char>)
    ensures
        name_le(a, a),
    decreases a.len(),
{
    if a.len() > 0 {
        lemma_name_le_reflexive(a.drop_first());
    }
}

/// Two names ordered both ways are the same name.
pub proof fn lemma_name_le_antisymmetric(a: Seq<char>, b: Seq<char>)
    requires
        name_le(a, b),
        name_le(b, a),
    ensures
        a == b,
    decreases a.len(),
{
    if a.len() == 0 {
        assert(a =~= b);
    } else {
        assert(b.len() > 0);
        if a[0] == b[0] {
            lemma_name_le_antisymmetric(a.drop_first(), b.drop_first());
            assert(a.drop_first().len() == b.drop_first().len());
            assert(a.len() == b.len());
            assert(a =~= b) by {
                assert forall|i: int| 0 <= i < a.len() implies a[i] == b[i] by {
                    if i > 0 {
                        assert(a[i] == a.drop_first()[i - 1]);
                        assert(b[i] == b.drop_first()[i - 1]);
                    }
                }
            }
        }
    }
}

/// The last name of a listing is the greatest name listed.
proof fn lemma_listing_last_is_greatest(ks: Seq<Seq<char>>, dom: Set<Seq<char>>, x: Seq<char>)
    requires
        is_listing(ks, dom),
        ks.len() > 0,
        dom.contains(x),
    ensures
        name_le(x, ks.last()),
{
    assert(ks.to_set().contains(x));
    let j = choose|j: int| 0 <= j < ks.len() && ks[j] == x;
    if j < ks.len() - 1 {
        assert(name_le(ks[j], ks[ks.len() - 1]));
    } else {
        lemma_name_le_reflexive(x);
    }
}

/// A listing without its last name lists the other names.
proof fn lemma_listing_drop_last(ks: Seq<Seq<char>>, dom: Set<Seq<char>>)
    requires
        is_listing(ks, dom),
        ks.len() > 0,
    ensures
        is_listing(ks.drop_last(), dom.remove(ks.last())),
{
    let rest = ks.drop_last();
    assert(rest.to_set() =~= dom.remove(ks.last())) by {
        assert forall|x: Seq<char>| rest.to_set().contains(x) implies dom.remove(ks.last()).contains(x) by {
            let j = choose|j: int| 0 <= j < rest.len() && rest[j] == x;
            assert(ks[j] == x);
            assert(ks.to_set().contains(x));
        }
        assert forall|x: Seq<char>| dom.remove(ks.last()).contains(x) implies rest.to_set().contains(x) by {
            assert(ks.to_set().contains(x));
            let j = choose|j: int| 0 <= j < ks.len() && ks[j] == x;
            assert(j != ks.len() - 1);
            assert(rest[j] == x);
        }
    }
    assert forall|i: int, j: int| 0 <= i < j < rest.len() implies name_le(#[trigger] rest[i], #[trigger] rest[j]) by {
        assert(name_le(ks[i], ks[j]));
    }
}

/// A set of names has one listing only, so a rendering is fixed by the jar.
pub proof fn lemma_listing_unique(ks1: Seq<Seq<char>>, ks2: Seq<Seq<char>>, dom: Set<Seq<char>>)
    requires
        is_listing(ks1, dom),
        is_listing(ks2, dom),
    ensures
        ks1 == ks2,
    decreases ks1.len(),
{
    if ks1.len() == 0 {
        if ks2.len() > 0 {
            assert(ks2.to_set().contains(ks2[0]));
        }
        assert(ks1 =~= ks2);
    } else if ks2.len() == 0 {
        assert(ks1.to_set().contains(ks1[0]));
    } else {
        let m1 = ks1.last();
        let m2 = ks2.last();
        assert(ks1.to_set().contains(m1));
        assert(ks2.to_set().contains(m2));
        lemma_listing_last_is_greatest(ks1, dom, m2);
        lemma_listing_last_is_greatest(ks2, dom, m1);
        lemma_name_le_antisymmetric(m1, m2);
        lemma_listing_drop_last(ks1, dom);
        lemma_listing_drop_last(ks2, dom);
        lemma_listing_unique(ks1.drop_last(), ks2.drop_last(), dom.remove(m1));
        assert(ks1 =~= ks1.drop_last().push(m1));
        assert(ks2 =~= ks2.drop_last().push(m2));
    }
}

} // verus!
