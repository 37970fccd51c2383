//! MQTT topics: how Home Assistant's topics are formed, and how a topic
//! falls apart into its levels.
use vstd::prelude::*;
use vstd::string::*;

verus! {

/// The topic `homeassistant/<platform>/<unique_id>/<leaf>` under which Home
/// Assistant expects an entity's messages.
pub open spec fn ha_topic(platform: Seq<char>, unique_id: Seq<char>, leaf: Seq<char>) -> Seq<char> {
    "homeassistant/"@ + platform + "/"@ + unique_id + "/"@ + leaf
}

/// Builds `homeassistant/<platform>/<unique_id>/<leaf>`.
pub fn make_ha_topic(platform: &str, unique_id: &str, leaf: &str) -> (topic: String)
    ensures
        topic@ == ha_topic(platform@, unique_id@, leaf@),
{
    let topic = String::from_str("homeassistant/");
    let topic = topic.concat(platform);
    let topic = topic.concat("/");
    let topic = topic.concat(unique_id);
    let topic = topic.concat("/");
    topic.concat(leaf)
}

/// The levels of a topic: the pieces between the slashes, as `str::split('/')`
/// yields them.  There is always at least one, and a slash at either end
/// gives an empty level.
pub open spec fn topic_levels(s: Seq<char>) -> Seq<Seq<char>>
    decreases s.len(),
{
    if s.len() == 0 {
        seq![Seq::<char>::empty()]
    } else {
        let prev = topic_levels(s.drop_last());
        if s.last() == '/' {
            prev.push(Seq::<char>::empty())
        } else {
            prev.update(prev.len() - 1, prev.last().push(s.last()))
        }
    }
}

/// The level at `index` of the topic, if the topic has that many levels.
pub open spec fn topic_level(s: Seq<char>, index: int) -> Option<Seq<char>> {
    if 0 <= index < topic_levels(s).len() {
        Some(topic_levels(s)[index])
    } else {
        None
    }
}

/// A topic has at least one level.
pub proof fn lemma_topic_levels_nonempty(s: Seq<char>)
    ensures
        topic_levels(s).len() >= 1,
    decreases s.len(),
{
    if s.len() > 0 {
        lemma_topic_levels_nonempty(s.drop_last());
    }
}

/// Reading further into a topic never changes a level that a slash has
/// already closed, and never takes a level away.
pub proof fn lemma_topic_levels_prefix(s: Seq<char>, k: int)
    requires
        0 <= k <= s.len(),
    ensures
        topic_levels(s.take(k)).len() <= topic_levels(s).len(),
        forall|j: int|
            0 <= j < topic_levels(s.take(k)).len() - 1 ==> #[trigger] topic_levels(s)[j]
                == topic_levels(s.take(k))[j],
    decreases s.len() - k,
{
    if k < s.len() {
        lemma_topic_levels_prefix(s, k + 1);
        let t = s.take(k + 1);
        assert(t.drop_last() =~= s.take(k));
        lemma_topic_levels_nonempty(s.take(k));
    } else {
        assert(s.take(k) =~= s);
    }
}

/// The level at `index` of the topic, or `None` where the topic has fewer
/// levels; `topic.split('/').nth(index)`.
pub fn topic_level_at(topic: &str, index: usize) -> (r: Option<String>)
    ensures
        match topic_level(topic@, index as int) {
            Some(level) => r matches Some(s) && s@ == level,
            None => r is None,
        },
{
    let len = topic.unicode_len();
    let mut i: usize = 0;
    let mut count: usize = 0;
    let mut start: usize = 0;
    assert(topic@.take(0) =~= Seq::<char>::empty());
    while i < len
        invariant
            len == topic@.len(),
            start <= i <= len,
            count <= index,
            topic_levels(topic@.take(i as int)).len() == count + 1,
            topic_levels(topic@.take(i as int)).last() == topic@.subrange(start as int, i as int),
        decreases len - i,
    {
        let c = topic.get_char(i);
        let ghost t = topic@.take(i + 1);
        proof {
            assert(t.drop_last() =~= topic@.take(i as int));
            assert(t.last() == c);
            lemma_topic_levels_nonempty(topic@.take(i as int));
        }
        if c == '/' {
            if count == index {
                proof {
                    lemma_topic_levels_prefix(topic@, i + 1);
                }
                let level = topic.substring_char(start, i);
                return Some(String::from_str(level));
            }
            count = count + 1;
            start = i + 1;
            assert(topic_levels(t).last() =~= topic@.subrange(start as int, (i + 1) as int));
        } else {
            assert(topic_levels(t).last() =~= topic@.subrange(start as int, (i + 1) as int));
        }
        i = i + 1;
    }
    assert(topic@.take(len as int) =~= topic@);
    if count == index {
        let level = topic.substring_char(start, len);
        Some(String::from_str(level))
    } else {
        None
    }
}

/// A piece of a topic without a slash is a single level.
pub proof fn lemma_topic_levels_no_slash(s: Seq<char>)
    requires
        !s.contains('/'),
    ensures
        topic_levels(s) == seq![s],
    decreases s.len(),
{
    if s.len() > 0 {
        assert(!s.drop_last().contains('/')) by {
            if s.drop_last().contains('/') {
                let k = choose|k: int| 0 <= k < s.drop_last().len() && s.drop_last()[k] == '/';
                assert(s[k] == '/');
            }
        }
        lemma_topic_levels_no_slash(s.drop_last());
        assert(s.last() != '/') by {
            assert(s[s.len() - 1] == s.last());
        }
        assert(s.drop_last().push(s.last()) =~= s);
    } else {
        assert(s =~= Seq::<char>::empty());
    }
}

/// The levels of two topics joined by a slash are the levels of the first
/// followed by those of the second.
pub proof fn lemma_topic_levels_join(a: Seq<char>, b: Seq<char>)
    ensures
        topic_levels(a + seq!['/'] + b) == topic_levels(a) + topic_levels(b),
    decreases b.len(),
{
    let joined = a + seq!['/'] + b;
    if b.len() == 0 {
        assert(joined.drop_last() =~= a);
        assert(joined.last() == '/');
        assert(topic_levels(a) + topic_levels(b) =~= topic_levels(a).push(Seq::<char>::empty()));
    } else {
        lemma_topic_levels_join(a, b.drop_last());
        lemma_topic_levels_nonempty(b.drop_last());
        lemma_topic_levels_nonempty(a);
        assert(joined.drop_last() =~= a + seq!['/'] + b.drop_last());
        assert(joined.last() == b.last());
        let la = topic_levels(a);
        let lb = topic_levels(b.drop_last());
        if b.last() == '/' {
            assert(topic_levels(joined) =~= (la + lb).push(Seq::<char>::empty()));
            assert(topic_levels(b) =~= lb.push(Seq::<char>::empty()));
            assert((la + lb).push(Seq::<char>::empty()) =~= la + lb.push(Seq::<char>::empty()));
        } else {
            let prev = la + lb;
            assert(prev.last() == lb.last());
            assert(prev.update(prev.len() - 1, prev.last().push(b.last())) =~= la + lb.update(
                lb.len() - 1,
                lb.last().push(b.last()),
            ));
        }
    }
}

/// In a Home Assistant topic whose platform and unique id hold no slash, the
/// third level is the unique id: a message on an entity's command topic is
/// routed to the entity.
pub proof fn lemma_ha_topic_unique_id_level(platform: Seq<char>, unique_id: Seq<char>, leaf: Seq<char>)
    requires
        !platform.contains('/'),
        !unique_id.contains('/'),
    ensures
        topic_level(ha_topic(platform, unique_id, leaf), 2) == Some(unique_id),
{
    reveal_strlit("homeassistant/");
    reveal_strlit("/");
    let root = "homeassistant/"@.drop_last();
    assert(root =~= seq!['h', 'o', 'm', 'e', 'a', 's', 's', 'i', 's', 't', 'a', 'n', 't']);
    assert(!root.contains('/'));
    assert("homeassistant/"@ =~= root + seq!['/']);
    let rest = unique_id + seq!['/'] + leaf;
    let topic = ha_topic(platform, unique_id, leaf);
    assert(topic =~= root + seq!['/'] + (platform + seq!['/'] + rest));
    lemma_topic_levels_join(root, platform + seq!['/'] + rest);
    lemma_topic_levels_join(platform, rest);
    lemma_topic_levels_join(unique_id, leaf);
    lemma_topic_levels_no_slash(root);
    lemma_topic_levels_no_slash(platform);
    lemma_topic_levels_no_slash(unique_id);
    lemma_topic_levels_nonempty(leaf);
}

/// Levels joined back together with slashes between them.
pub open spec fn join_levels(levels: Seq<Seq<char>>) -> Seq<char>
    decreases levels.len(),
{
    if levels.len() <= 1 {
        if levels.len() == 0 {
            Seq::empty()
        } else {
            levels[0]
        }
    } else {
        join_levels(levels.drop_last()) + seq!['/'] + levels.last()
    }
}

/// A topic falls apart into levels that hold no slash and that, joined back
/// with slashes, give the whole topic again: nothing is lost or added.
pub proof fn law_levels_rejoin(s: Seq<char>)
    ensures
        join_levels(topic_levels(s)) == s,
        forall|k: int| 0 <= k < topic_levels(s).len() ==> !(#[trigger] topic_levels(s)[k]).contains('/'),
    decreases s.len(),
{
    lemma_topic_levels_nonempty(s);
    if s.len() == 0 {
        assert(topic_levels(s)[0] =~= Seq::<char>::empty());
        assert(s =~= Seq::<char>::empty());
    } else {
        let prev = topic_levels(s.drop_last());
        law_levels_rejoin(s.drop_last());
        lemma_topic_levels_nonempty(s.drop_last());
        let ls = topic_levels(s);
        if s.last() == '/' {
            assert(ls.drop_last() =~= prev);
            assert(ls.last() =~= Seq::<char>::empty());
            assert(join_levels(ls) =~= s.drop_last() + seq!['/']);
            assert(s =~= s.drop_last() + seq!['/']);
            assert forall|k: int| 0 <= k < ls.len() implies !(#[trigger] ls[k]).contains('/') by {
                if k < prev.len() {
                    assert(ls[k] == prev[k]);
                }
            }
        } else {
            let c = s.last();
            assert(ls.drop_last() =~= prev.drop_last());
            assert(ls.last() =~= prev.last().push(c));
            if prev.len() == 1 {
                assert(join_levels(prev) == prev[0]);
                assert(join_levels(ls) == ls[0]);
            } else {
                assert(join_levels(prev) == join_levels(prev.drop_last()) + seq!['/'] + prev.last());
                assert(join_levels(ls) == join_levels(ls.drop_last()) + seq!['/'] + ls.last());
            }
            assert(join_levels(ls) =~= join_levels(prev).push(c));
            assert(s =~= s.drop_last().push(c));
            assert forall|k: int| 0 <= k < ls.len() implies !(#[trigger] ls[k]).contains('/') by {
                if k < prev.len() - 1 {
                    assert(ls[k] == prev[k]);
                } else {
                    assert(ls[k] == prev.last().push(c));
                    assert(!prev[prev.len() - 1].contains('/'));
                    if ls[k].contains('/') {
                        let j = choose|j: int| 0 <= j < ls[k].len() && ls[k][j] == '/';
                        if j < prev.last().len() {
                            assert(prev.last()[j] == '/');
                        }
                    }
                }
            }
        }
    }
}

/// The topic `homeassistant/<platform>/<unique_id>/<leaf>` holds, each one
/// whole and in this order, `homeassistant`, the platform, the unique id and
/// the leaf, with a slash after each of the first three.
pub proof fn law_ha_topic_parts(platform: Seq<char>, unique_id: Seq<char>, leaf: Seq<char>)
    ensures
        ({
            let t = ha_topic(platform, unique_id, leaf);
            let p = platform.len() as int;
            let u = unique_id.len() as int;
            &&& t.len() == 16 + p + u + leaf.len()
            &&& t.subrange(0, 14) == seq![
                'h', 'o', 'm', 'e', 'a', 's', 's', 'i', 's', 't', 'a', 'n', 't', '/'
            ]
            &&& t.subrange(14, 14 + p) == platform
            &&& t[14 + p] == '/'
            &&& t.subrange(15 + p, 15 + p + u) == unique_id
            &&& t[15 + p + u] == '/'
            &&& t.subrange(16 + p + u, t.len() as int) == leaf
        }),
{
    reveal_strlit("homeassistant/");
    reveal_strlit("/");
    let t = ha_topic(platform, unique_id, leaf);
    let root = seq!['h', 'o', 'm', 'e', 'a', 's', 's', 'i', 's', 't', 'a', 'n', 't', '/'];
    let p = platform.len() as int;
    let u = unique_id.len() as int;
    assert("homeassistant/"@ =~= root);
    assert(t =~= root + platform + seq!['/'] + unique_id + seq!['/'] + leaf);
    assert(t.subrange(0, 14) =~= root);
    assert(t.subrange(14, 14 + p) =~= platform);
    assert(t.subrange(15 + p, 15 + p + u) =~= unique_id);
    assert(t.subrange(16 + p + u, t.len() as int) =~= leaf);
}

/// A topic has one level more than it has slashes, and its level at an
/// index below that count is that level.
pub proof fn law_level_count(s: Seq<char>, index: int)
    ensures
        topic_levels(s).len() == 1 + s.filter(|c: char| c == '/').len(),
        0 <= index < topic_levels(s).len() ==> topic_level(s, index) == Some(topic_levels(s)[index]),
        !(0 <= index < topic_levels(s).len()) ==> topic_level(s, index) is None,
    decreases s.len(),
{
    reveal_with_fuel(Seq::<char>::filter, 1);
    if s.len() > 0 {
        law_level_count(s.drop_last(), index);
        lemma_topic_levels_nonempty(s.drop_last());
    }
}

} // verus!
