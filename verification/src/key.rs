//! The option model shared by plots, axes and pictures: an ordered list of
//! keys in which every tagged key replaces the earlier key of the same tag,
//! while verbatim keys are only ever appended.

use vstd::prelude::*;

verus! {

/// An option of a plot, an axis or a picture.
pub trait Key: Sized {
    /// The variant of a key, whatever its payload. `None` for the verbatim
    /// variant, which never replaces and is never replaced.
    spec fn tag(&self) -> Option<nat>;

    /// Whether the key is of the verbatim variant.
    fn is_verbatim(&self) -> (r: bool)
        ensures
            r == (self.tag() is None),
    ;

    /// Whether two keys are of the same variant.
    fn same_tag(&self, other: &Self) -> (r: bool)
        ensures
            r == (self.tag() == other.tag()),
    ;
}

/// The index of the first key that carries `tag`, or the length of `keys`
/// when no key does.
pub open spec fn position<K: Key>(keys: Seq<K>, tag: nat) -> int
    decreases keys.len(),
{
    if keys.len() == 0 {
        0
    } else if keys[0].tag() == Some(tag) {
        0
    } else {
        1 + position(keys.drop_first(), tag)
    }
}

/// The list after `key` was added: a tagged key first takes the place of the
/// earliest key with its tag, then every key goes to the end.
pub open spec fn put<K: Key>(keys: Seq<K>, key: K) -> Seq<K> {
    match key.tag() {
        None => keys.push(key),
        Some(tag) => {
            let at = position(keys, tag);
            if at < keys.len() {
                keys.remove(at).push(key)
            } else {
                keys.push(key)
            }
        },
    }
}

/// The list after each of `added` was added in turn.
pub open spec fn put_all<K: Key>(keys: Seq<K>, added: Seq<K>) -> Seq<K>
    decreases added.len(),
{
    if added.len() == 0 {
        keys
    } else {
        put(put_all(keys, added.drop_last()), added.last())
    }
}

/// No tag occurs on two keys.
pub open spec fn distinct_tags<K: Key>(keys: Seq<K>) -> bool {
    forall|i: int, j: int|
        #![trigger keys[i], keys[j]]
        0 <= i < j < keys.len() && keys[i].tag() is Some ==> keys[i].tag() != keys[j].tag()
}

/// The key at `i` is tagged and a later key of `added` has the same tag.
pub open spec fn superseded<K: Key>(added: Seq<K>, i: int) -> bool {
    added[i].tag() is Some && exists|j: int|
        i < j < added.len() && #[trigger] added[j].tag() == added[i].tag()
}

/// Of the first `n` keys of `added`, those that no later key of `added`
/// supersedes, in the order in which they were added.
pub open spec fn surviving<K: Key>(added: Seq<K>, n: nat) -> Seq<K>
    decreases n,
{
    if n == 0 {
        Seq::empty()
    } else if superseded(added, n - 1) {
        surviving(added, (n - 1) as nat)
    } else {
        surviving(added, (n - 1) as nat).push(added[n - 1])
    }
}

/// `keys` without every key that carries `tag`.
spec fn without<K: Key>(keys: Seq<K>, tag: Option<nat>) -> Seq<K>
    decreases keys.len(),
{
    if keys.len() == 0 {
        Seq::empty()
    } else if tag is Some && keys.last().tag() == tag {
        without(keys.drop_last(), tag)
    } else {
        without(keys.drop_last(), tag).push(keys.last())
    }
}

/// `position` finds the first key with the tag and nothing before it.
pub proof fn lemma_position<K: Key>(keys: Seq<K>, tag: nat)
    ensures
        0 <= position(keys, tag) <= keys.len(),
        position(keys, tag) < keys.len() ==> keys[position(keys, tag)].tag() == Some(tag),
        forall|j: int| 0 <= j < position(keys, tag) ==> (#[trigger] keys[j]).tag() != Some(tag),
    decreases keys.len(),
{
    if keys.len() != 0 && keys[0].tag() != Some(tag) {
        let rest = keys.drop_first();
        lemma_position(rest, tag);
        assert forall|j: int| 0 <= j < position(keys, tag) implies (#[trigger] keys[j]).tag()
            != Some(tag) by {
            if j > 0 {
                assert(rest[j - 1] == keys[j]);
            }
        }
    }
}

/// An index that carries the tag, with no such index before it, is the position.
pub proof fn lemma_position_is<K: Key>(keys: Seq<K>, tag: nat, at: int)
    requires
        0 <= at <= keys.len(),
        at < keys.len() ==> keys[at].tag() == Some(tag),
        forall|j: int| 0 <= j < at ==> (#[trigger] keys[j]).tag() != Some(tag),
    ensures
        position(keys, tag) == at,
{
    lemma_position(keys, tag);
    let found = position(keys, tag);
    if found < at {
        assert(keys[found].tag() != Some(tag));
    } else if at < found {
        assert(keys[at].tag() != Some(tag));
    }
}

/// The front of a list of distinct tags has distinct tags.
proof fn lemma_front_distinct<K: Key>(keys: Seq<K>)
    requires
        distinct_tags(keys),
        keys.len() > 0,
    ensures
        distinct_tags(keys.drop_last()),
{
    let front = keys.drop_last();
    assert forall|i: int, j: int|
        #![trigger front[i], front[j]]
        0 <= i < j < front.len() && front[i].tag() is Some implies front[i].tag()
        != front[j].tag() by {
        assert(keys[i] == front[i] && keys[j] == front[j]);
    }
}

/// Every key of `without(keys, tag)` is a key of `keys`, and none of them
/// carries `tag`.
proof fn lemma_without_members<K: Key>(keys: Seq<K>, tag: Option<nat>)
    ensures
        tag is None ==> without(keys, tag) == keys,
        forall|i: int|
            0 <= i < without(keys, tag).len() ==> keys.contains(#[trigger] without(keys, tag)[i]),
        forall|i: int|
            0 <= i < without(keys, tag).len() && tag is Some ==> (#[trigger] without(
                keys,
                tag,
            )[i]).tag() != tag,
    decreases keys.len(),
{
    if keys.len() != 0 {
        let front = keys.drop_last();
        lemma_without_members(front, tag);
        let kept = without(front, tag);
        let all = without(keys, tag);
        if tag is None {
            assert(all =~= keys);
        }
        assert forall|i: int| 0 <= i < all.len() implies keys.contains(#[trigger] all[i]) by {
            if i < kept.len() {
                assert(front.contains(kept[i]));
                let j = choose|j: int| 0 <= j < front.len() && front[j] == kept[i];
                assert(keys[j] == all[i]);
            } else {
                assert(keys[keys.len() - 1] == all[i]);
            }
        }
    }
}

/// Taking every key of one tag out of a list of distinct tags leaves the
/// tags distinct.
proof fn lemma_without_distinct<K: Key>(keys: Seq<K>, tag: Option<nat>)
    requires
        distinct_tags(keys),
    ensures
        distinct_tags(without(keys, tag)),
    decreases keys.len(),
{
    if keys.len() != 0 {
        let front = keys.drop_last();
        lemma_front_distinct(keys);
        lemma_without_distinct(front, tag);
        lemma_without_members(front, tag);
        let kept = without(front, tag);
        let all = without(keys, tag);
        if all.len() > kept.len() {
            assert forall|i: int, j: int|
                #![trigger all[i], all[j]]
                0 <= i < j < all.len() && all[i].tag() is Some implies all[i].tag()
                != all[j].tag() by {
                if j < kept.len() {
                    assert(all[i] == kept[i] && all[j] == kept[j]);
                } else {
                    assert(front.contains(kept[i]));
                    let k = choose|k: int| 0 <= k < front.len() && front[k] == kept[i];
                    assert(keys[k] == all[i] && keys[keys.len() - 1] == all[j]);
                }
            }
        }
    }
}

/// In a list of distinct tags, taking out the first key with a tag takes out
/// every key with that tag.
proof fn lemma_put_is_without<K: Key>(keys: Seq<K>, key: K)
    requires
        distinct_tags(keys),
    ensures
        put(keys, key) == without(keys, key.tag()).push(key),
    decreases keys.len(),
{
    lemma_without_members(keys, key.tag());
    if key.tag() is Some {
        let tag = key.tag()->0;
        lemma_position(keys, tag);
        let at = position(keys, tag);
        assert(without(keys, key.tag()) == if at < keys.len() {
            keys.remove(at)
        } else {
            keys
        }) by {
            lemma_without_removes_first(keys, tag);
        }
    }
}

/// `without` on a list of distinct tags, by the position of the tag.
proof fn lemma_without_removes_first<K: Key>(keys: Seq<K>, tag: nat)
    requires
        distinct_tags(keys),
    ensures
        position(keys, tag) < keys.len() ==> without(keys, Some(tag)) == keys.remove(
            position(keys, tag),
        ),
        position(keys, tag) >= keys.len() ==> without(keys, Some(tag)) == keys,
    decreases keys.len(),
{
    lemma_position(keys, tag);
    if keys.len() != 0 {
        let front = keys.drop_last();
        let at = position(keys, tag);
        lemma_front_distinct(keys);
        lemma_without_removes_first(front, tag);
        lemma_position(front, tag);
        if at < front.len() {
            assert(keys[at] == front[at]);
            assert forall|j: int| 0 <= j < at implies (#[trigger] front[j]).tag() != Some(
                tag,
            ) by {
                assert(keys[j] == front[j]);
            }
            lemma_position_is(front, tag, at);
            assert(keys[at].tag() != keys[keys.len() - 1].tag());
            assert(without(keys, Some(tag)) =~= keys.remove(at));
        } else {
            assert forall|j: int| 0 <= j < front.len() implies (#[trigger] front[j]).tag()
                != Some(tag) by {
                assert(keys[j] == front[j]);
            }
            lemma_position_is(front, tag, front.len() as int);
            if at < keys.len() {
                assert(without(keys, Some(tag)) =~= keys.remove(at));
            } else {
                assert(without(keys, Some(tag)) =~= keys);
            }
        }
    }
}

/// Adding a key keeps the tags of a list distinct.
pub proof fn lemma_put_keeps_distinct<K: Key>(keys: Seq<K>, key: K)
    requires
        distinct_tags(keys),
    ensures
        distinct_tags(put(keys, key)),
{
    lemma_put_is_without(keys, key);
    lemma_without_members(keys, key.tag());
    lemma_without_distinct(keys, key.tag());
    let kept = without(keys, key.tag());
    let all = kept.push(key);
    assert forall|i: int, j: int|
        #![trigger all[i], all[j]]
        0 <= i < j < all.len() && all[i].tag() is Some implies all[i].tag() != all[j].tag() by {
        if j < kept.len() {
            assert(all[i] == kept[i] && all[j] == kept[j]);
        } else {
            assert(all[i] == kept[i]);
        }
    }
}

/// A verbatim key is appended and nothing else changes, however often the
/// same text is added.
pub proof fn lemma_verbatim_keys_accumulate<K: Key>(keys: Seq<K>, key: K)
    requires
        key.tag() is None,
    ensures
        put(keys, key) == keys.push(key),
        put(put(keys, key), key) == keys.push(key).push(key),
{
}

/// What one more added key does to the survivors among the keys before it.
proof fn lemma_surviving_push<K: Key>(added: Seq<K>, key: K, n: nat)
    requires
        n <= added.len(),
    ensures
        surviving(added.push(key), n) == without(surviving(added, n), key.tag()),
    decreases n,
{
    let more = added.push(key);
    if n > 0 {
        let i = (n - 1) as int;
        lemma_surviving_push(added, key, (n - 1) as nat);
        assert(more[i] == added[i]);
        if superseded(added, i) {
            let j = choose|j: int| i < j < added.len() && #[trigger] added[j].tag() == added[i].tag();
            assert(more[j] == added[j]);
            assert(superseded(more, i));
        } else if added[i].tag() is Some && added[i].tag() == key.tag() {
            assert(more[added.len() as int] == key);
            assert(superseded(more, i));
            assert(surviving(added, n).drop_last() =~= surviving(added, (n - 1) as nat));
        } else {
            if superseded(more, i) {
                let j = choose|j: int| i < j < more.len() && #[trigger] more[j].tag() == more[i].tag();
                if j < added.len() {
                    assert(more[j] == added[j]);
                    assert(superseded(added, i));
                }
            }
            assert(surviving(added, n).drop_last() =~= surviving(added, (n - 1) as nat));
        }
    }
}

/// Starting from an empty list, the result of any run of additions holds
/// exactly the keys that no later addition superseded, in the order in which
/// they were added: so a tag occurs at most once, on the key added last with
/// it, and every verbatim key is still there.
pub proof fn lemma_additions_keep_last_of_each_tag<K: Key>(added: Seq<K>)
    ensures
        put_all(Seq::<K>::empty(), added) == surviving(added, added.len()),
        distinct_tags(put_all(Seq::<K>::empty(), added)),
    decreases added.len(),
{
    if added.len() > 0 {
        let front = added.drop_last();
        let key = added.last();
        lemma_additions_keep_last_of_each_tag(front);
        assert(front.push(key) =~= added);
        lemma_surviving_push(front, key, front.len());
        lemma_put_is_without(surviving(front, front.len()), key);
        assert(!superseded(added, added.len() - 1));
        lemma_put_keeps_distinct(put_all(Seq::<K>::empty(), front), key);
    } else {
        assert(distinct_tags(Seq::<K>::empty()));
    }
}

/// Adds `key` to `keys`: a tagged key replaces the key of the same tag, and
/// the new key always comes last.
fn put_key<K: Key>(keys: &mut Vec<K>, key: K)
    ensures
        final(keys)@ == put(old(keys)@, key),
{
    if !key.is_verbatim() {
        let mut i: usize = 0;
        let mut found = false;
        while i < keys.len() && !found
            invariant
                i <= keys.len(),
                keys@ == old(keys)@,
                key.tag() is Some,
                forall|j: int| 0 <= j < i ==> (#[trigger] keys@[j]).tag() != key.tag(),
                found ==> i < keys.len() && keys@[i as int].tag() == key.tag(),
            decreases keys.len() - i + if found { 0int } else { 1int },
        {
            if keys[i].same_tag(&key) {
                found = true;
            } else {
                i = i + 1;
            }
        }
        proof {
            lemma_position_is(keys@, key.tag()->0, i as int);
        }
        if found {
            keys.remove(i);
        }
    }
    keys.push(key);
}

/// The keys of a plot, an axis or a picture, in the order in which they are
/// written. The list is reached only through the methods here, which never
/// let a tag occur on two keys.
#[derive(Clone, Debug)]
pub struct Keys<K: Key> {
    list: Vec<K>,
}

impl<K: Key> View for Keys<K> {
    type V = Seq<K>;

    closed spec fn view(&self) -> Seq<K> {
        self.list@
    }
}

impl<K: Key> Keys<K> {
    /// No tag occurs on two keys.
    pub open spec fn wf(&self) -> bool {
        distinct_tags(self@)
    }

    /// No keys.
    pub fn new() -> (r: Self)
        ensures
            r@ == Seq::<K>::empty(),
            r.wf(),
    {
        Keys { list: Vec::new() }
    }

    /// Adds a key: a tagged key replaces the key of the same tag, if there
    /// is one, and in any case the new key comes last.
    pub fn add(&mut self, key: K)
        ensures
            final(self)@ == put(old(self)@, key),
            old(self).wf() ==> final(self).wf(),
    {
        proof {
            if self.wf() {
                lemma_put_keeps_distinct(self@, key);
            }
        }
        put_key(&mut self.list, key);
    }

    /// Removes every key.
    pub fn clear(&mut self)
        ensures
            final(self)@ == Seq::<K>::empty(),
            final(self).wf(),
    {
        self.list.clear();
    }

    /// The keys, to read.
    pub fn as_vec(&self) -> (r: &Vec<K>)
        ensures
            r@ == self@,
    {
        &self.list
    }
}

impl<K: Key> core::ops::Deref for Keys<K> {
    type Target = Vec<K>;

    fn deref(&self) -> (r: &Vec<K>)
        ensures
            r@ == self@,
    {
        &self.list
    }
}

impl<K: Key> Default for Keys<K> {
    fn default() -> (r: Self)
        ensures
            r@ == Seq::<K>::empty(),
            r.wf(),
    {
        Keys::new()
    }
}

} // verus!
