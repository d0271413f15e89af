//! Durations written as `hours:minutes:seconds`.

use crate::number::{parse_bounded, parse_unsigned};
use crate::text::{split_bytes, split_on};
use vstd::prelude::*;
use vstd::string::*;

verus! {

/// What one group of a duration counts: the number it is, or 0 where it is
/// none.
pub open spec fn group_value(group: Seq<u8>) -> int {
    match parse_unsigned(group, usize::MAX as int) {
        Some(v) => v,
        None => 0,
    }
}

/// What the groups of a duration count together, each group but the last
/// counting sixty of the next.
pub open spec fn seconds_of(groups: Seq<Seq<u8>>) -> int
    decreases groups.len(),
{
    if groups.len() == 0 {
        0
    } else {
        seconds_of(groups.drop_last()) * 60 + group_value(groups.last())
    }
}

/// The milliseconds of a duration whose groups colons separate.
pub open spec fn milliseconds(duration: Seq<u8>) -> int {
    seconds_of(split_on(duration, seq![0x3au8])) * 1000
}

/// The groups of a duration count no less than the first of them do.
pub proof fn lemma_seconds_grow(groups: Seq<Seq<u8>>, i: int)
    requires
        0 <= i <= groups.len(),
    ensures
        0 <= seconds_of(groups.subrange(0, i)) <= seconds_of(groups),
    decreases groups.len(),
{
    if groups.len() == 0 {
        assert(groups.subrange(0, i) =~= groups);
    } else if i == groups.len() {
        assert(groups.subrange(0, i) =~= groups);
        lemma_seconds_grow(groups.drop_last(), i - 1);
        assert(groups.drop_last().subrange(0, i - 1) =~= groups.drop_last());
    } else {
        assert(groups.drop_last().subrange(0, i) =~= groups.subrange(0, i));
        lemma_seconds_grow(groups.drop_last(), i);
    }
}

/// A duration of hours, minutes and seconds counts 3600 for each hour and
/// 60 for each minute.
pub proof fn lemma_seconds_of_three(hours: Seq<u8>, minutes: Seq<u8>, seconds: Seq<u8>)
    ensures
        seconds_of(seq![hours, minutes, seconds]) == group_value(hours) * 3600 + group_value(
            minutes,
        ) * 60 + group_value(seconds),
{
    let three = seq![hours, minutes, seconds];
    let two = seq![hours, minutes];
    let one = seq![hours];
    assert(three.drop_last() =~= two);
    assert(two.drop_last() =~= one);
    assert(one.drop_last() =~= Seq::<Seq<u8>>::empty());
    assert(seconds_of(one.drop_last()) == 0);
    assert(seconds_of(one) == group_value(hours));
    assert(seconds_of(two) == group_value(hours) * 60 + group_value(minutes));
}

/// The milliseconds of a duration, where a `usize` holds them.
pub fn checked_time_to_ms(duration: &str) -> (r: Option<usize>)
    ensures
        match r {
            Some(ms) => ms == milliseconds(duration.spec_bytes()),
            None => milliseconds(duration.spec_bytes()) > usize::MAX,
        },
{
    let mut sep: Vec<u8> = Vec::new();
    sep.push(0x3a);
    assert(sep@ =~= seq![0x3au8]);
    let groups = split_bytes(duration.as_bytes(), sep.as_slice());
    let ghost all = split_on(duration.spec_bytes(), seq![0x3au8]);
    let mut seconds: usize = 0;
    let mut i: usize = 0;
    assert(all.subrange(0, 0) =~= Seq::<Seq<u8>>::empty());
    while i < groups.len()
        invariant
            i <= groups.len(),
            groups@.map_values(|p: &[u8]| p@) == all,
            all == split_on(duration.spec_bytes(), seq![0x3au8]),
            seconds == seconds_of(all.subrange(0, i as int)),
        decreases groups.len() - i,
    {
        proof {
            lemma_seconds_grow(all, i + 1);
            assert(all.subrange(0, i + 1).drop_last() =~= all.subrange(0, i as int));
            assert(all.subrange(0, i + 1).last() == groups@[i as int]@);
        }
        let value: usize = match parse_bounded(groups[i], usize::MAX as u64) {
            Some(v) => v as usize,
            None => 0,
        };
        let next = match seconds.checked_mul(60) {
            Some(sixty) => sixty.checked_add(value),
            None => None,
        };
        match next {
            Some(n) => {
                seconds = n;
            },
            None => {
                return None;
            },
        }
        i += 1;
    }
    assert(all.subrange(0, groups.len() as int) =~= all);
    seconds.checked_mul(1000)
}

/// The milliseconds of a duration such as `1:02:03`: the groups between the
/// colons are numbers, the last seconds, each one before it sixty times the
/// next. A group that is no number counts as 0.
pub fn time_to_ms(duration: &str) -> (ms: usize)
    requires
        milliseconds(duration.spec_bytes()) <= usize::MAX,
    ensures
        ms == milliseconds(duration.spec_bytes()),
{
    match checked_time_to_ms(duration) {
        Some(ms) => ms,
        None => 0,
    }
}

} // verus!
