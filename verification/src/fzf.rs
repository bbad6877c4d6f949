//! An incremental fuzzy filter: candidates whose keys hold the typed atoms
//! in order, though not necessarily side by side.

use vstd::prelude::*;
use vstd::std_specs::cmp::PartialEqSpec;

verus! {

/// What a filter knows of one candidate: its key, the position of the key
/// atom that matched last (`-1` before the first match), and its value.
pub ghost struct ElemView<T, U> {
    pub key: Seq<T>,
    pub cursor: int,
    pub value: U,
}

/// The first position after `cursor` at which `key` holds `atom`, and
/// `key.len()` if it holds none there.
pub open spec fn next_match<T: PartialEq>(key: Seq<T>, cursor: int, atom: T) -> int
    recommends
        -1 <= cursor,
    decreases key.len() - cursor,
{
    if cursor + 1 >= key.len() {
        key.len() as int
    } else if key[cursor + 1].eq_spec(&atom) {
        cursor + 1
    } else {
        next_match(key, cursor + 1, atom)
    }
}

impl<T: PartialEq, U> ElemView<T, U> {
    /// The candidate after `atom` was typed: its cursor on the next match,
    /// or `None` if the rest of its key holds no `atom`.
    pub open spec fn advance(self, atom: T) -> Option<ElemView<T, U>> {
        let j = next_match(self.key, self.cursor, atom);
        if j < self.key.len() {
            Some(ElemView { key: self.key, cursor: j, value: self.value })
        } else {
            None
        }
    }
}

/// The candidates of `s` that survive `atom`, each advanced, in the order
/// in which `s` holds them.
pub open spec fn advance_all<T: PartialEq, U>(s: Seq<ElemView<T, U>>, atom: T) -> Seq<
    ElemView<T, U>,
>
    decreases s.len(),
{
    if s.len() == 0 {
        Seq::empty()
    } else {
        let rest = advance_all(s.drop_last(), atom);
        match s.last().advance(atom) {
            Some(e) => rest.push(e),
            None => rest,
        }
    }
}

/// The values of the candidates of `s`, in order.
pub open spec fn values<T, U>(s: Seq<ElemView<T, U>>) -> Seq<U> {
    s.map_values(|e: ElemView<T, U>| e.value)
}

/// `idx` picks positions of a sequence of length `n`, in rising order.
pub open spec fn rising(idx: Seq<int>, n: int) -> bool {
    &&& forall|i: int| 0 <= i < idx.len() ==> 0 <= #[trigger] idx[i] < n
    &&& forall|i: int, j: int| 0 <= i < j < idx.len() ==> #[trigger] idx[i] < #[trigger] idx[j]
}

/// `idx` says where in `before` each candidate of `after` comes from: the
/// candidate there has the same key and value, and its cursor lies before.
pub open spec fn narrows_by<T, U>(
    before: Seq<ElemView<T, U>>,
    after: Seq<ElemView<T, U>>,
    idx: Seq<int>,
) -> bool {
    &&& idx.len() == after.len()
    &&& rising(idx, before.len() as int)
    &&& forall|i: int|
        0 <= i < after.len() ==> {
            &&& (#[trigger] after[i]).key == before[idx[i]].key
            &&& after[i].value == before[idx[i]].value
            &&& after[i].cursor > before[idx[i]].cursor
        }
}

/// `after` holds candidates of `before` only: each with its key and value,
/// in the same relative order, and with its cursor moved forward.
pub open spec fn narrows<T, U>(before: Seq<ElemView<T, U>>, after: Seq<ElemView<T, U>>) -> bool {
    exists|idx: Seq<int>| narrows_by(before, after, idx)
}

/// Every cursor of `s` lies in its key or just before it.
pub open spec fn cursors_in_keys<T, U>(s: Seq<ElemView<T, U>>) -> bool {
    forall|i: int| 0 <= i < s.len() ==> -1 <= (#[trigger] s[i]).cursor < s[i].key.len()
}

/// The candidates of a filter that was just made from `pairs`: each with
/// its cursor before the first position.
pub open spec fn fresh<T, U>(pairs: Seq<(Vec<T>, U)>) -> Seq<ElemView<T, U>> {
    pairs.map_values(|p: (Vec<T>, U)| ElemView { key: p.0@, cursor: -1, value: p.1 })
}

/// Two keys are the same: as long as each other, and equal atom by atom.
pub open spec fn same_key<T: PartialEq>(a: Seq<T>, b: Seq<T>) -> bool {
    &&& a.len() == b.len()
    &&& forall|i: int| 0 <= i < a.len() ==> (#[trigger] a[i]).eq_spec(&b[i])
}

/// The position of the first candidate of `s` whose key is `key`, and
/// `s.len()` if there is none.
pub open spec fn first_with_key<T: PartialEq, U>(s: Seq<ElemView<T, U>>, key: Seq<T>) -> int
    decreases s.len(),
{
    if s.len() == 0 {
        0
    } else if same_key(s[0].key, key) {
        0
    } else {
        1 + first_with_key(s.drop_first(), key)
    }
}

/// `s` with `value` for the value of the candidate at position `at`, key
/// and cursor as they were; `s` itself where it has no such position.
pub open spec fn with_value_at<T, U>(s: Seq<ElemView<T, U>>, at: int, value: U) -> Seq<
    ElemView<T, U>,
> {
    if 0 <= at < s.len() {
        s.update(at, ElemView { key: s[at].key, cursor: s[at].cursor, value })
    } else {
        s
    }
}

/// The candidates of `s`, each with `f` of its value for a value.
pub open spec fn with_values<T, U, V>(s: Seq<ElemView<T, U>>, f: spec_fn(U) -> V) -> Seq<
    ElemView<T, V>,
> {
    s.map_values(|e: ElemView<T, U>| ElemView { key: e.key, cursor: e.cursor, value: f(e.value) })
}

/// `next_match` finds the first match and nothing else: it lies after the
/// cursor, no position between the cursor and it holds the atom, and unless
/// it is the end of the key, it does.
pub proof fn lemma_next_match<T: PartialEq>(key: Seq<T>, cursor: int, atom: T)
    requires
        -1 <= cursor < key.len(),
    ensures
        cursor < next_match(key, cursor, atom) <= key.len(),
        forall|i: int|
            cursor < i < next_match(key, cursor, atom) ==> !(#[trigger] key[i]).eq_spec(&atom),
        next_match(key, cursor, atom) < key.len() ==> key[next_match(key, cursor, atom)].eq_spec(
            &atom,
        ),
    decreases key.len() - cursor,
{
    if cursor + 1 < key.len() && !key[cursor + 1].eq_spec(&atom) {
        lemma_next_match(key, cursor + 1, atom);
    }
}

/// A key without atoms matches nothing: its candidate leaves at the first
/// atom typed, whatever the atom.
pub proof fn lemma_empty_key_never_matches<T: PartialEq, U>(e: ElemView<T, U>, atom: T)
    requires
        e.key.len() == 0,
        -1 <= e.cursor,
    ensures
        e.advance(atom) is None,
{
}

/// Typing an atom only narrows: what remains was there before, with the
/// same key and value, in the same relative order, its cursor further on.
/// No candidate comes back, and none is added.
pub proof fn lemma_advance_all_narrows<T: PartialEq, U>(s: Seq<ElemView<T, U>>, atom: T)
    requires
        forall|i: int| 0 <= i < s.len() ==> -1 <= (#[trigger] s[i]).cursor,
    ensures
        narrows(s, advance_all(s, atom)),
        advance_all(s, atom).len() <= s.len(),
    decreases s.len(),
{
    let after = advance_all(s, atom);
    if s.len() == 0 {
        assert(narrows_by(s, after, Seq::<int>::empty()));
    } else {
        let head = s.drop_last();
        let rest = advance_all(head, atom);
        lemma_advance_all_narrows(head, atom);
        let idx = choose|idx: Seq<int>| narrows_by(head, rest, idx);
        match s.last().advance(atom) {
            Some(e) => {
                if s.last().cursor < s.last().key.len() {
                    lemma_next_match(s.last().key, s.last().cursor, atom);
                }
                let all = idx.push(s.len() - 1);
                assert forall|i: int| 0 <= i < after.len() implies {
                    &&& (#[trigger] after[i]).key == s[all[i]].key
                    &&& after[i].value == s[all[i]].value
                    &&& after[i].cursor > s[all[i]].cursor
                } by {}
                assert(narrows_by(s, after, all));
            },
            None => {
                assert forall|i: int| 0 <= i < after.len() implies {
                    &&& (#[trigger] after[i]).key == s[idx[i]].key
                    &&& after[i].value == s[idx[i]].value
                    &&& after[i].cursor > s[idx[i]].cursor
                } by {}
                assert(narrows_by(s, after, idx));
            },
        }
    }
}

/// The filter never looks at a value: to change the values and then type
/// an atom gives what it gives to type the atom and then change the values.
pub proof fn lemma_advance_all_with_values<T: PartialEq, U, V>(
    s: Seq<ElemView<T, U>>,
    f: spec_fn(U) -> V,
    atom: T,
)
    ensures
        advance_all(with_values(s, f), atom) == with_values(advance_all(s, atom), f),
    decreases s.len(),
{
    if s.len() > 0 {
        lemma_advance_all_with_values(s.drop_last(), f, atom);
        assert(with_values(s, f).drop_last() =~= with_values(s.drop_last(), f));
    }
}

/// Nor does the search by key look at a value.
pub proof fn lemma_first_with_key_with_values<T: PartialEq, U, V>(
    s: Seq<ElemView<T, U>>,
    f: spec_fn(U) -> V,
    key: Seq<T>,
)
    ensures
        first_with_key(with_values(s, f), key) == first_with_key(s, key),
        0 <= first_with_key(s, key) <= s.len(),
    decreases s.len(),
{
    if s.len() > 0 {
        lemma_first_with_key_with_values(s.drop_first(), f, key);
        assert(with_values(s, f).drop_first() =~= with_values(s.drop_first(), f));
    }
}

/// The search by key finds the first candidate with the key: if the
/// candidate at `at` has it and none before has, `at` is what is found.
pub proof fn lemma_first_with_key<T: PartialEq, U>(s: Seq<ElemView<T, U>>, key: Seq<T>, at: int)
    requires
        0 <= at < s.len(),
        same_key(s[at].key, key),
        forall|j: int| 0 <= j < at ==> !same_key((#[trigger] s[j]).key, key),
    ensures
        first_with_key(s, key) == at,
    decreases s.len(),
{
    if at > 0 {
        let rest = s.drop_first();
        assert(!same_key(s[0].key, key));
        assert forall|j: int| 0 <= j < at - 1 implies !same_key((#[trigger] rest[j]).key, key) by {
            assert(rest[j] == s[j + 1]);
        }
        lemma_first_with_key(rest, key, at - 1);
    }
}

/// One fuzzy findable element.
pub struct FzfElem<T: Eq + Clone, U: Clone> {
    key: Vec<T>,
    /// The position of the cursor in the key: `None` before the first
    /// position, and `key.len()` once a search has run off the end.
    index: Option<usize>,
    value: U,
}

/// A fuzzy find over a list of elements.
pub struct Fzf<T: Eq + Clone, U: Clone> {
    elems: Vec<FzfElem<T, U>>,
}

impl<T: Eq + Clone, U: Clone> View for FzfElem<T, U> {
    type V = ElemView<T, U>;

    closed spec fn view(&self) -> ElemView<T, U> {
        ElemView {
            key: self.key@,
            cursor: match self.index {
                Some(i) => i as int,
                None => -1,
            },
            value: self.value,
        }
    }
}

impl<T: Eq + Clone, U: Clone> FzfElem<T, U> {
    #[verifier::type_invariant]
    spec fn well_formed(self) -> bool {
        self.index matches Some(i) ==> i <= self.key.len()
    }

    /// Creates a new fuzzy findable element, its cursor before the first
    /// position of the key.
    pub fn new(key: Vec<T>, value: U) -> (r: FzfElem<T, U>)
        ensures
            r@ == (ElemView { key: key@, cursor: -1, value }),
    {
        FzfElem { key, index: None, value }
    }

    /// Moves the cursor forward to the next position of the key that holds
    /// `next`. Returns false if there is none; the cursor is then past the
    /// last position, at `key.len()`, and stays there.
    pub fn goto_next(&mut self, next: &T) -> (found: bool)
        ensures
            final(self)@.key == old(self)@.key,
            final(self)@.value == old(self)@.value,
            -1 <= old(self)@.cursor <= final(self)@.cursor <= old(self)@.key.len(),
            old(self)@.cursor < old(self)@.key.len() ==> old(self)@.cursor < final(self)@.cursor,
            found ==> final(self)@.cursor < old(self)@.key.len(),
            !found ==> final(self)@.cursor == old(self)@.key.len(),
            T::obeys_eq_spec() ==> final(self)@.cursor == next_match(
                old(self)@.key,
                old(self)@.cursor,
                *next,
            ),
            T::obeys_eq_spec() ==> found == (old(self)@.advance(*next) is Some),
            T::obeys_eq_spec() && found ==> old(self)@.advance(*next) == Some(final(self)@),
    {
        proof {
            use_type_invariant(&*self);
        }
        let n: usize = self.key.len();
        let mut j: usize = match self.index {
            None => 0,
            Some(i) => if i < n {
                i + 1
            } else {
                n
            },
        };
        while j < n
            invariant
                j <= n,
                n == self.key.len(),
                *self == *old(self),
                self@.cursor <= j,
                self@.cursor < n ==> self@.cursor < j,
                T::obeys_eq_spec() ==> next_match(self.key@, self@.cursor, *next) == next_match(
                    self.key@,
                    j as int - 1,
                    *next,
                ),
            decreases n - j,
        {
            if self.key[j] == *next {
                self.index = Some(j);
                return true;
            }
            j = j + 1;
        }
        self.index = Some(n);
        false
    }
}

impl<T: Eq + Clone, U: Clone> View for Fzf<T, U> {
    type V = Seq<ElemView<T, U>>;

    closed spec fn view(&self) -> Seq<ElemView<T, U>> {
        self.elems@.map_values(|e: FzfElem<T, U>| e@)
    }
}

/// Decides `same_key` wherever `==` on atoms computes `eq_spec`. Keys of
/// different length are never equal.
pub fn keys_equal<T: Eq>(a: &Vec<T>, b: &Vec<T>) -> (r: bool)
    ensures
        r ==> a@.len() == b@.len(),
        T::obeys_eq_spec() ==> r == same_key(a@, b@),
{
    if a.len() != b.len() {
        return false;
    }
    let n: usize = a.len();
    let mut i: usize = 0;
    while i < n
        invariant
            i <= n,
            n == a.len(),
            n == b.len(),
            T::obeys_eq_spec() ==> forall|k: int| 0 <= k < i ==> (#[trigger] a@[k]).eq_spec(&b@[k]),
        decreases n - i,
    {
        if !(a[i] == b[i]) {
            return false;
        }
        i = i + 1;
    }
    true
}

impl<T: Eq + Clone, U: Clone> Fzf<T, U> {
    /// Every element that remains has its cursor in its key or before it:
    /// one whose search ran off the end has left.
    #[verifier::type_invariant]
    spec fn well_formed(self) -> bool {
        forall|i: int|
            0 <= i < self.elems@.len() ==> (#[trigger] self.elems@[i])@.cursor
                < self.elems@[i]@.key.len()
    }

    /// Creates a new fuzzy find over `vec`: one element for each pair of a
    /// key and a value, in the order of `vec`, every cursor before the
    /// first position.
    pub fn new(vec: Vec<(Vec<T>, U)>) -> (r: Fzf<T, U>)
        ensures
            r@ == fresh(vec@),
    {
        let mut elems: Vec<FzfElem<T, U>> = Vec::new();
        let ghost pairs = vec@;
        for pair in it: vec
            invariant
                it.seq() == pairs,
                elems@.len() == it.index(),
                elems@.map_values(|e: FzfElem<T, U>| e@) == fresh(pairs.take(it.index() as int)),
        {
            let ghost k = it.index() as int;
            let ghost done = elems@;
            elems.push(FzfElem::new(pair.0, pair.1));
            let ghost now = elems@.map_values(|e: FzfElem<T, U>| e@);
            assert forall|i: int| 0 <= i < k + 1 implies #[trigger] now[i] == fresh(
                pairs.take(k + 1),
            )[i] by {
                if i < k {
                    assert(done.map_values(|e: FzfElem<T, U>| e@)[i] == fresh(pairs.take(k))[i]);
                }
            }
        }
        assert forall|i: int| 0 <= i < elems@.len() implies (#[trigger] elems@[i])@.cursor
            < elems@[i]@.key.len() by {
            assert(elems@.map_values(|e: FzfElem<T, U>| e@)[i].cursor == -1);
        }
        Fzf { elems }
    }

    /// The values of the elements that remain, in the order in which they
    /// were given.
    pub fn get_remaining(&self) -> (r: Vec<U>)
        ensures
            r@.len() == self@.len(),
            forall|i: int| 0 <= i < r@.len() ==> cloned(values(self@)[i], #[trigger] r@[i]),
            cursors_in_keys(self@),
    {
        proof {
            use_type_invariant(self);
        }
        let mut out: Vec<U> = Vec::new();
        let n: usize = self.elems.len();
        let mut i: usize = 0;
        while i < n
            invariant
                i <= n,
                n == self.elems.len(),
                out@.len() == i,
                forall|k: int| 0 <= k < i ==> cloned(self.elems@[k].value, #[trigger] out@[k]),
            decreases n - i,
        {
            out.push(self.elems[i].value.clone());
            i = i + 1;
        }
        out
    }

    /// The value of the element at position `at` among those that remain,
    /// if there is one.
    pub fn get_value_at(&self, at: usize) -> (r: Option<U>)
        ensures
            match r {
                Some(v) => at < self@.len() && cloned(self@[at as int].value, v),
                None => at >= self@.len(),
            },
    {
        if at < self.elems.len() {
            Some(self.elems[at].value.clone())
        } else {
            None
        }
    }

    /// Replaces the value of the element at position `at` among those that
    /// remain; does nothing if there is none. Keys and cursors stay as they
    /// are, and so does the order.
    pub fn update_value_at(&mut self, at: usize, value: U)
        ensures
            final(self)@ == with_value_at(old(self)@, at as int, value),
    {
        proof {
            use_type_invariant(&*self);
        }
        if at < self.elems.len() {
            let mut elems: Vec<FzfElem<T, U>> = Vec::new();
            std::mem::swap(&mut self.elems, &mut elems);
            let ghost before = elems@;
            elems[at].value = value;
            assert(elems@.map_values(|e: FzfElem<T, U>| e@) =~= with_value_at(
                before.map_values(|e: FzfElem<T, U>| e@),
                at as int,
                value,
            ));
            self.elems = elems;
        }
    }

    /// Gives the next atom to find. Every element whose key holds `t`
    /// after its cursor stays, its cursor on the first such position; the
    /// others leave for good. Returns the values of the elements that stay.
    pub fn next(&mut self, t: T) -> (r: Vec<U>)
        ensures
            narrows(old(self)@, final(self)@),
            cursors_in_keys(final(self)@),
            T::obeys_eq_spec() ==> final(self)@ == advance_all(old(self)@, t),
            r@.len() == final(self)@.len(),
            forall|i: int| 0 <= i < r@.len() ==> cloned(values(final(self)@)[i], #[trigger] r@[i]),
    {
        let mut all: Vec<FzfElem<T, U>> = Vec::new();
        std::mem::swap(&mut self.elems, &mut all);
        let mut kept: Vec<FzfElem<T, U>> = Vec::new();
        let ghost before = old(self)@;
        let ghost idx: Seq<int> = Seq::empty();
        for e in it: all
            invariant
                it.seq().map_values(|e: FzfElem<T, U>| e@) == before,
                idx.len() == kept@.len(),
                rising(idx, it.index() as int),
                forall|i: int|
                    0 <= i < kept@.len() ==> {
                        &&& (#[trigger] kept@[i])@.key == before[idx[i]].key
                        &&& kept@[i]@.value == before[idx[i]].value
                        &&& kept@[i]@.cursor > before[idx[i]].cursor
                        &&& -1 <= kept@[i]@.cursor < kept@[i]@.key.len()
                    },
                T::obeys_eq_spec() ==> kept@.map_values(|e: FzfElem<T, U>| e@) == advance_all(
                    before.take(it.index() as int),
                    t,
                ),
        {
            let ghost k = it.index() as int;
            let ghost done = kept@.map_values(|e: FzfElem<T, U>| e@);
            assert(before.take(k + 1).drop_last() =~= before.take(k));
            let mut e = e;
            if e.goto_next(&t) {
                kept.push(e);
                proof {
                    idx = idx.push(k);
                    assert(kept@.map_values(|e: FzfElem<T, U>| e@) =~= done.push(e@));
                }
            }
        }
        assert(before.take(before.len() as int) =~= before);
        self.elems = kept;
        assert(narrows_by(before, self@, idx));
        assert(cursors_in_keys(self@));
        self.get_remaining()
    }

    /// The value of the first remaining element whose key is `key`, if
    /// there is one.
    pub fn get_value_of(&self, key: Vec<T>) -> (r: Option<U>)
        ensures
            r matches Some(v) ==> exists|i: int|
                0 <= i < self@.len() && cloned((#[trigger] self@[i]).value, v),
            T::obeys_eq_spec() ==> match r {
                Some(v) => first_with_key(self@, key@) < self@.len() && cloned(
                    self@[first_with_key(self@, key@)].value,
                    v,
                ),
                None => first_with_key(self@, key@) == self@.len(),
            },
    {
        let n: usize = self.elems.len();
        let mut i: usize = 0;
        assert(self@.skip(0) =~= self@);
        while i < n
            invariant
                i <= n,
                n == self.elems.len(),
                T::obeys_eq_spec() ==> first_with_key(self@, key@) == i + first_with_key(
                    self@.skip(i as int),
                    key@,
                ),
            decreases n - i,
        {
            if keys_equal(&self.elems[i].key, &key) {
                let v = self.elems[i].value.clone();
                assert(cloned(self@[i as int].value, v));
                return Some(v);
            }
            assert(self@.skip(i as int).drop_first() =~= self@.skip(i as int + 1));
            i = i + 1;
        }
        None
    }

    /// Replaces the value of the first remaining element whose key is
    /// `key`; does nothing if there is none. Keys and cursors stay as they
    /// are.
    pub fn update_value_of(&mut self, key: Vec<T>, value: U)
        ensures
            exists|at: int| final(self)@ == #[trigger] with_value_at(old(self)@, at, value),
            T::obeys_eq_spec() ==> final(self)@ == with_value_at(
                old(self)@,
                first_with_key(old(self)@, key@),
                value,
            ),
    {
        let n: usize = self.elems.len();
        let mut i: usize = 0;
        assert(self@.skip(0) =~= self@);
        while i < n
            invariant
                i <= n,
                n == self.elems.len(),
                *self == *old(self),
                T::obeys_eq_spec() ==> first_with_key(self@, key@) == i + first_with_key(
                    self@.skip(i as int),
                    key@,
                ),
            decreases n - i,
        {
            assert(self@.skip(i as int)[0] == self.elems@[i as int]@);
            if keys_equal(&self.elems[i].key, &key) {
                self.update_value_at(i, value);
                return ;
            }
            assert(self@.skip(i as int).drop_first() =~= self@.skip(i as int + 1));
            i = i + 1;
        }
        assert(self@ == with_value_at(old(self)@, n as int, value));
    }
}

} // verus!
