//! Topic paths: how they are put together and how they are taken apart.

use vstd::prelude::*;
use vstd::utf8::encode_utf8;

use crate::bounded::{
    level_texts, levels_get, levels_new, levels_push, topic_new, topic_text, topic_write, Topic, TopicLevels,
};
use crate::consts::{MAX_TOPIC_LEN, MAX_TOPIC_LEVELS};
use crate::text::{lemma_ascii_len, lemma_encode_concat, lemma_encode_injective, same_text, utf8_len};

verus! {

/// The character that separates the levels of a topic path.
pub const LEVEL_SEPARATOR: char = '/';

/// `path` cut at its level separators into at most `n` pieces. The last piece
/// keeps the separators that are left over.
pub open spec fn split_levels(path: Seq<char>, n: nat) -> Seq<Seq<char>>
    decreases n,
{
    if n <= 1 || !path.contains(LEVEL_SEPARATOR) {
        seq![path]
    } else {
        let end = path.index_of_first(LEVEL_SEPARATOR)->0;
        seq![path.take(end)] + split_levels(path.skip(end + 1), (n - 1) as nat)
    }
}

/// The levels of a topic path.
pub open spec fn levels(path: Seq<char>) -> Seq<Seq<char>> {
    split_levels(path, MAX_TOPIC_LEVELS as nat)
}

/// Whether there is a level at `index` and it reads `text`.
pub open spec fn level_is(levels: Seq<Seq<char>>, index: int, text: Seq<char>) -> bool {
    index < levels.len() && levels[index] == text
}

/// The topic path of a thing's `service`, with a `name` and a `suffix` behind
/// it.
pub open spec fn thing_path(
    thing: Seq<char>,
    service: Seq<char>,
    name: Seq<char>,
    suffix: Seq<char>,
) -> Seq<char> {
    "$aws/things/"@ + thing + service + name + suffix
}

/// Whether a topic path is short enough to be carried.
pub open spec fn topic_fits(path: Seq<char>) -> bool {
    utf8_len(path) <= MAX_TOPIC_LEN
}

/// A level that is followed by more is the first piece of the split.
pub proof fn lemma_split_first(first: Seq<char>, rest: Seq<char>, n: nat)
    requires
        n > 1,
        !first.contains(LEVEL_SEPARATOR),
    ensures
        split_levels(first.push(LEVEL_SEPARATOR) + rest, n) == seq![first] + split_levels(
            rest,
            (n - 1) as nat,
        ),
{
    let path = first.push(LEVEL_SEPARATOR) + rest;
    assert(path[first.len() as int] == LEVEL_SEPARATOR);
    assert(path.contains(LEVEL_SEPARATOR));
    path.index_of_first_ensures(LEVEL_SEPARATOR);
    let end = path.index_of_first(LEVEL_SEPARATOR)->0;
    assert(end <= first.len()) by {
        if end > first.len() {
            assert(path[first.len() as int] != LEVEL_SEPARATOR);
        }
    }
    assert(end == first.len()) by {
        if end < first.len() {
            assert(first[end] == path[end]);
            assert(first.contains(LEVEL_SEPARATOR));
        }
    }
    assert(path.take(end) =~= first);
    assert(path.skip(end + 1) =~= rest);
}

/// `levels` put back together, with a separator between each two of them.
pub open spec fn join_levels(levels: Seq<Seq<char>>) -> Seq<char>
    decreases levels.len(),
{
    if levels.len() == 0 {
        Seq::empty()
    } else if levels.len() == 1 {
        levels[0]
    } else {
        levels[0].push(LEVEL_SEPARATOR) + join_levels(levels.drop_first())
    }
}

/// The levels of a path, put back together, are the path. There are at least
/// one and at most `n` of them, and only the last can hold a separator, where
/// there are `n` of them.
pub proof fn law_levels_lose_nothing(path: Seq<char>, n: nat)
    requires
        n > 0,
    ensures
        join_levels(split_levels(path, n)) == path,
        1 <= split_levels(path, n).len() <= n,
        split_levels(path, n).len() == n || !split_levels(path, n).last().contains(LEVEL_SEPARATOR),
        forall|i: int|
            0 <= i < split_levels(path, n).len() - 1 ==> !(#[trigger] split_levels(
                path,
                n,
            )[i]).contains(LEVEL_SEPARATOR),
    decreases n,
{
    if n > 1 && path.contains(LEVEL_SEPARATOR) {
        path.index_of_first_ensures(LEVEL_SEPARATOR);
        let end = path.index_of_first(LEVEL_SEPARATOR)->0;
        let (first, rest) = (path.take(end), path.skip(end + 1));
        law_levels_lose_nothing(rest, (n - 1) as nat);
        let pieces = split_levels(path, n);
        assert(pieces.last() == split_levels(rest, (n - 1) as nat).last());
        assert(pieces.drop_first() =~= split_levels(rest, (n - 1) as nat));
        assert(path =~= first.push(LEVEL_SEPARATOR) + rest);
        assert forall|i: int| 0 <= i < pieces.len() - 1 implies !(
        #[trigger] pieces[i]).contains(LEVEL_SEPARATOR) by {
            if i > 0 {
                assert(pieces[i] == split_levels(rest, (n - 1) as nat)[i - 1]);
            }
        }
    }
}

/// Levels that hold no separator are found again, where there are no more of
/// them than the path is split into.
pub proof fn law_levels_are_found(levels: Seq<Seq<char>>, n: nat)
    requires
        1 <= levels.len() <= n,
        forall|i: int|
            0 <= i < levels.len() ==> !(#[trigger] levels[i]).contains(LEVEL_SEPARATOR),
    ensures
        split_levels(join_levels(levels), n) == levels,
    decreases levels.len(),
{
    if levels.len() == 1 {
        assert(!levels[0].contains(LEVEL_SEPARATOR));
        assert(seq![levels[0]] =~= levels);
    } else {
        let rest = levels.drop_first();
        assert forall|i: int| 0 <= i < rest.len() implies !(#[trigger] rest[i]).contains(
            LEVEL_SEPARATOR,
        ) by {
            assert(rest[i] == levels[i + 1]);
        }
        law_levels_are_found(rest, (n - 1) as nat);
        assert(!levels[0].contains(LEVEL_SEPARATOR));
        lemma_split_first(levels[0], join_levels(rest), n);
        assert(seq![levels[0]] + rest =~= levels);
    }
}

/// A topic path is cut at its separators into at most eight levels.
pub proof fn law_paths_have_eight_levels(path: Seq<char>)
    ensures
        levels(path) == split_levels(path, 8),
        join_levels(levels(path)) == path,
        1 <= levels(path).len() <= 8,
        levels(path).len() == 8 || !levels(path).last().contains('/'),
        forall|i: int|
            0 <= i < levels(path).len() - 1 ==> !(#[trigger] levels(path)[i]).contains('/'),
{
    law_levels_lose_nothing(path, 8);
}

/// The topic path of a thing's service takes twelve bytes beside its parts, and
/// fits where it takes no more than 256.
pub proof fn law_topics_are_measured(
    thing: Seq<char>,
    service: Seq<char>,
    name: Seq<char>,
    suffix: Seq<char>,
)
    ensures
        thing_path(thing, service, name, suffix) == "$aws/things/"@ + thing + service + name
            + suffix,
        encode_utf8(thing_path(thing, service, name, suffix)).len() == 12 + encode_utf8(thing).len()
            + encode_utf8(service).len() + encode_utf8(name).len() + encode_utf8(suffix).len(),
        topic_fits(thing_path(thing, service, name, suffix)) <==> 12 + encode_utf8(thing).len()
            + encode_utf8(service).len() + encode_utf8(name).len() + encode_utf8(suffix).len()
            <= 256,
{
    reveal_strlit("$aws/things/");
    let a = "$aws/things/"@;
    lemma_ascii_len(a);
    lemma_encode_concat(a, thing);
    lemma_encode_concat(a + thing, service);
    lemma_encode_concat(a + thing + service, name);
    lemma_encode_concat(a + thing + service + name, suffix);
}

/// The topic path of a service, cut into levels: `service` and each of `tail`
/// are single levels.
pub proof fn lemma_thing_path_levels(
    thing: Seq<char>,
    service: Seq<char>,
    slashed: Seq<char>,
    name: Seq<char>,
    suffix: Seq<char>,
    tail: Seq<Seq<char>>,
)
    requires
        !thing.contains(LEVEL_SEPARATOR),
        !service.contains(LEVEL_SEPARATOR),
        tail.len() > 0,
        slashed == seq![LEVEL_SEPARATOR] + service.push(LEVEL_SEPARATOR),
        name + suffix == join_levels(tail),
    ensures
        thing_path(thing, slashed, name, suffix) == join_levels(
            seq!["$aws"@, "things"@, thing, service] + tail,
        ),
        !"$aws"@.contains(LEVEL_SEPARATOR),
        !"things"@.contains(LEVEL_SEPARATOR),
{
    reveal_strlit("$aws/things/");
    reveal_strlit("$aws");
    reveal_strlit("things");
    let all = seq!["$aws"@, "things"@, thing, service] + tail;
    assert("$aws/things/"@ =~= "$aws"@.push(LEVEL_SEPARATOR) + "things"@.push(LEVEL_SEPARATOR));
    assert(all.drop_first() =~= seq!["things"@, thing, service] + tail);
    assert(all.drop_first().drop_first() =~= seq![thing, service] + tail);
    assert(all.drop_first().drop_first().drop_first() =~= seq![service] + tail);
    assert(all.drop_first().drop_first().drop_first().drop_first() =~= tail);
    reveal_with_fuel(join_levels, 5);
    assert(thing_path(thing, slashed, name, suffix) =~= "$aws"@.push(LEVEL_SEPARATOR) + (
    "things"@.push(LEVEL_SEPARATOR) + (thing.push(LEVEL_SEPARATOR) + (service.push(LEVEL_SEPARATOR)
        + (name + suffix)))));
}

/// A character below 128 is encoded as the byte of the same value.
proof fn lemma_separator_encoding()
    ensures
        encode_utf8(seq![LEVEL_SEPARATOR]) == seq![0x2fu8],
{
    let c = seq![LEVEL_SEPARATOR];
    assert(vstd::utf8::is_ascii_chars(c));
    vstd::utf8::is_ascii_chars_encode_utf8(c);
    assert(c[0] as u8 == 0x2fu8);
    assert(encode_utf8(c) =~= seq![0x2fu8]);
}

/// A separator in the characters is a separator byte in the encoding.
proof fn lemma_separator_byte(s: Seq<char>)
    requires
        s.contains(LEVEL_SEPARATOR),
    ensures
        encode_utf8(s).contains(0x2fu8),
{
    let k = s.index_of(LEVEL_SEPARATOR);
    let (a, b) = (s.take(k), s.skip(k + 1));
    assert(s =~= a + (seq![LEVEL_SEPARATOR] + b));
    lemma_encode_concat(a, seq![LEVEL_SEPARATOR] + b);
    lemma_encode_concat(seq![LEVEL_SEPARATOR], b);
    lemma_separator_encoding();
    assert(encode_utf8(s)[encode_utf8(a).len() as int] == 0x2fu8);
}

/// The two sides of the first separator of `path`.
fn split_once<'a>(path: &'a str) -> (sides: Option<(&'a str, &'a str)>)
    ensures
        match sides {
            Some((first, rest)) => {
                &&& path@ == first@.push(LEVEL_SEPARATOR) + rest@
                &&& !first@.contains(LEVEL_SEPARATOR)
            },
            None => !path@.contains(LEVEL_SEPARATOR),
        },
{
    let bytes = path.as_bytes();
    let mut i: usize = 0;
    while i < bytes.len()
        invariant
            i <= bytes@.len(),
            bytes@ == encode_utf8(path@),
            forall|j: int| 0 <= j < i ==> bytes@[j] != 0x2fu8,
        decreases bytes@.len() - i,
    {
        if bytes[i] == 0x2fu8 {
            proof {
                vstd::utf8::encode_utf8_valid_utf8(path@);
                assert(vstd::utf8::is_leading_byte_width_1(0x2fu8));
                vstd::utf8::is_char_boundary_iff_is_leading_byte(bytes@, i as int);
            }
            let (first, tail) = path.split_at(i);
            let ghost tail_bytes = encode_utf8(tail@);
            proof {
                vstd::utf8::encode_utf8_valid_utf8(tail@);
                assert(tail_bytes[0] == 0x2fu8);
                if tail_bytes.len() == 1 {
                    vstd::utf8::is_char_boundary_start_end_of_seq(tail_bytes);
                } else {
                    reveal_with_fuel(vstd::utf8::is_char_boundary, 2);
                    assert(vstd::utf8::length_of_first_scalar(tail_bytes) == 1);
                }
            }
            let (separator, rest) = tail.split_at(1);
            proof {
                lemma_separator_encoding();
                let joined = first@ + (seq![LEVEL_SEPARATOR] + rest@);
                lemma_encode_concat(first@, seq![LEVEL_SEPARATOR] + rest@);
                lemma_encode_concat(seq![LEVEL_SEPARATOR], rest@);
                assert(encode_utf8(joined) =~= bytes@);
                lemma_encode_injective(joined, path@);
                assert(first@.push(LEVEL_SEPARATOR) + rest@ =~= joined);
                if first@.contains(LEVEL_SEPARATOR) {
                    lemma_separator_byte(first@);
                    let j = encode_utf8(first@).index_of(0x2fu8);
                    assert(bytes@[j] == 0x2fu8);
                }
            }
            return Some((first, rest));
        }
        i = i + 1;
    }
    proof {
        if path@.contains(LEVEL_SEPARATOR) {
            lemma_separator_byte(path@);
            let j = encode_utf8(path@).index_of(0x2fu8);
            assert(bytes@[j] == 0x2fu8);
        }
    }
    None
}

/// Splits a topic path into its levels.
pub fn topic_levels<'a>(path: &'a str) -> (list: TopicLevels<'a>)
    ensures
        level_texts(list) == levels(path@),
{
    let mut list = levels_new();
    let mut rest: &'a str = path;
    let mut left: usize = MAX_TOPIC_LEVELS;
    while left > 1
        invariant
            1 <= left <= MAX_TOPIC_LEVELS,
            level_texts(list).len() + left == MAX_TOPIC_LEVELS,
            levels(path@) == level_texts(list) + split_levels(rest@, left as nat),
        decreases left,
    {
        match split_once(rest) {
            Some((first, tail)) => {
                proof {
                    lemma_split_first(first@, tail@, left as nat);
                    assert(level_texts(list) + (seq![first@] + split_levels(
                        tail@,
                        (left - 1) as nat,
                    )) =~= level_texts(list).push(first@) + split_levels(
                        tail@,
                        (left - 1) as nat,
                    ));
                }
                let _ = levels_push(&mut list, first);
                rest = tail;
                left = left - 1;
            },
            None => {
                let _ = levels_push(&mut list, rest);
                return list;
            },
        }
    }
    let _ = levels_push(&mut list, rest);
    list
}

/// Whether there is a level at `index` and it reads `text`.
pub fn level_reads(list: &TopicLevels, index: usize, text: &str) -> (reads: bool)
    ensures
        reads == level_is(level_texts(*list), index as int, text@),
{
    match levels_get(list, index) {
        Some(level) => same_text(level, text),
        None => false,
    }
}

/// Puts the topic path of a thing's service together.
pub fn thing_topic(thing_name: &str, service: &str, name: &str, suffix: &str) -> (result: Result<
    Topic,
    (),
>)
    ensures
        match result {
            Ok(topic) => {
                &&& topic_fits(thing_path(thing_name@, service@, name@, suffix@))
                &&& topic_text(topic) == thing_path(thing_name@, service@, name@, suffix@)
            },
            Err(_) => !topic_fits(thing_path(thing_name@, service@, name@, suffix@)),
        },
{
    let ghost a = "$aws/things/"@;
    let ghost b = a + thing_name@;
    let ghost c = b + service@;
    let ghost d = c + name@;
    proof {
        assert(Seq::<char>::empty() + a =~= a);
        lemma_encode_concat(a, thing_name@);
        lemma_encode_concat(b, service@);
        lemma_encode_concat(c, name@);
        lemma_encode_concat(d, suffix@);
    }
    let mut topic = topic_new();
    topic_write(&mut topic, "$aws/things/")?;
    topic_write(&mut topic, thing_name)?;
    topic_write(&mut topic, service)?;
    topic_write(&mut topic, name)?;
    topic_write(&mut topic, suffix)?;
    Ok(topic)
}

} // verus!
