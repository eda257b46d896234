use crate::json::{field, find_field, Json};
use vstd::prelude::*;

verus! {

broadcast use vstd::seq_lib::to_multiset_insert;

/// A price observed at a block level.
#[derive(Clone, Copy, Debug, PartialEq, Eq, Structural)]
pub struct Tick {
    pub time: u64,
    pub price: u64,
}

/// The prices of the ticks of one time bucket, starting at `time`.
#[derive(Clone, Copy, Debug, PartialEq, Eq, Structural)]
pub struct Candle {
    pub time: u64,
    pub low: u64,
    pub high: u64,
    pub open: u64,
    pub close: u64,
}

pub open spec fn sorted_by_time(s: Seq<Tick>) -> bool {
    forall|i: int, j: int| 0 <= i < j < s.len() ==> s[i].time <= s[j].time
}

/// How many ticks at the front of `s` fall before `start + interval`.
pub open spec fn bucket_len(s: Seq<Tick>, start: u64, interval: u64) -> nat
    decreases s.len(),
{
    if s.len() > 0 && s[0].time < start + interval {
        1 + bucket_len(s.drop_first(), start, interval)
    } else {
        0
    }
}

pub open spec fn min_price(s: Seq<Tick>) -> u64
    decreases s.len(),
{
    if s.len() <= 1 {
        s[0].price
    } else if min_price(s.drop_last()) <= s.last().price {
        min_price(s.drop_last())
    } else {
        s.last().price
    }
}

pub open spec fn max_price(s: Seq<Tick>) -> u64
    decreases s.len(),
{
    if s.len() <= 1 {
        s[0].price
    } else if max_price(s.drop_last()) >= s.last().price {
        max_price(s.drop_last())
    } else {
        s.last().price
    }
}

/// The candles of ticks sorted by time: each bucket starts at the first tick
/// not yet taken and holds the ticks before its start plus `interval`.
pub open spec fn candles_of(s: Seq<Tick>, interval: u64) -> Seq<Candle>
    decreases s.len() via candles_of_decreases
{
    if s.len() == 0 || interval == 0 {
        Seq::empty()
    } else {
        let n = bucket_len(s, s[0].time, interval);
        if n == 0 {
            Seq::empty()
        } else {
            let b = s.take(n as int);
            seq![
                Candle {
                    time: s[0].time,
                    low: min_price(b),
                    high: max_price(b),
                    open: s[0].price,
                    close: s[n - 1].price,
                },
            ] + candles_of(s.skip(n as int), interval)
        }
    }
}

proof fn lemma_bucket_len_bound(s: Seq<Tick>, start: u64, interval: u64)
    ensures
        bucket_len(s, start, interval) <= s.len(),
    decreases s.len(),
{
    if s.len() > 0 {
        lemma_bucket_len_bound(s.drop_first(), start, interval);
    }
}

#[via_fn]
proof fn candles_of_decreases(s: Seq<Tick>, interval: u64) {
    if s.len() > 0 && interval != 0 {
        lemma_bucket_len_bound(s, s[0].time, interval);
    }
}

/// Sorts `data` by time, keeping ticks of equal time in their order.
fn sort_by_time(data: &mut Vec<Tick>)
    ensures
        sorted_by_time(final(data)@),
        final(data)@.to_multiset() == old(data)@.to_multiset(),
{
    let mut out: Vec<Tick> = Vec::new();
    let mut i: usize = 0;
    assert(data@.take(0) =~= out@);
    while i < data.len()
        invariant
            i <= data@.len(),
            data@ == old(data)@,
            sorted_by_time(out@),
            out@.to_multiset() == data@.take(i as int).to_multiset(),
        decreases data@.len() - i,
    {
        let x = data[i];
        let mut p: usize = 0;
        while p < out.len() && out[p].time <= x.time
            invariant
                p <= out@.len(),
                forall|k: int| 0 <= k < p ==> out@[k].time <= x.time,
            decreases out@.len() - p,
        {
            p = p + 1;
        }
        let ghost before = out@;
        out.insert(p, x);
        proof {
            assert(data@.take(i + 1) =~= data@.take(i as int).push(x));
            vstd::seq_lib::to_multiset_build(data@.take(i as int), x);
            assert forall|a: int, b: int| 0 <= a < b < out@.len() implies out@[a].time <= out@[b].time by {
                if b < p {
                } else if b == p {
                } else if a < p {
                    assert(before[b - 1].time > x.time || before[p as int].time > x.time);
                } else if a == p {
                    assert(before[p as int].time > x.time);
                }
            }
        }
        i = i + 1;
    }
    assert(data@.take(i as int) =~= data@);
    *data = out;
}

/// Sorts `data` by time and groups it into candles of `interval` levels each.
/// Nothing is sorted, and no candle made, when `data` is empty or `interval`
/// is zero.
pub fn aggregate(data: &mut Vec<Tick>, interval: u64) -> (r: Vec<Candle>)
    ensures
        final(data)@.to_multiset() == old(data)@.to_multiset(),
        old(data)@.len() == 0 || interval == 0 ==> final(data)@ == old(data)@ && r@.len() == 0,
        old(data)@.len() > 0 && interval > 0 ==> sorted_by_time(final(data)@) && r@ == candles_of(
            final(data)@,
            interval,
        ),
{
    if data.len() == 0 || interval == 0 {
        return Vec::new();
    }
    sort_by_time(data);
    let n = data.len();
    let mut out: Vec<Candle> = Vec::new();
    let mut i: usize = 0;
    assert(data@.skip(0) =~= data@);
    assert(out@ + candles_of(data@, interval) =~= candles_of(data@, interval));
    while i < n
        invariant
            n == data@.len(),
            i <= n,
            interval > 0,
            sorted_by_time(data@),
            candles_of(data@, interval) == out@ + candles_of(data@.skip(i as int), interval),
        decreases n - i,
    {
        let t0 = data[i].time;
        let open = data[i].price;
        let mut low = open;
        let mut high = open;
        let mut j: usize = i + 1;
        proof {
            assert(data@.skip(i as int).drop_first() =~= data@.skip(i + 1));
            assert(data@.subrange(i as int, i + 1).len() == 1);
        }
        while j < n && data[j].time - t0 < interval
            invariant
                n == data@.len(),
                i < j <= n,
                sorted_by_time(data@),
                t0 == data@[i as int].time,
                bucket_len(data@.skip(i as int), t0, interval) == (j - i) + bucket_len(
                    data@.skip(j as int),
                    t0,
                    interval,
                ),
                low == min_price(data@.subrange(i as int, j as int)),
                high == max_price(data@.subrange(i as int, j as int)),
            decreases n - j,
        {
            proof {
                assert(data@.skip(j as int).drop_first() =~= data@.skip(j + 1));
                assert(data@.subrange(i as int, j + 1).drop_last() =~= data@.subrange(
                    i as int,
                    j as int,
                ));
            }
            if data[j].price < low {
                low = data[j].price;
            }
            if data[j].price > high {
                high = data[j].price;
            }
            j = j + 1;
        }
        let close = data[j - 1].price;
        let c = Candle { time: t0, low, high, open, close };
        proof {
            let s = data@.skip(i as int);
            assert(bucket_len(data@.skip(j as int), t0, interval) == 0);
            assert(s.take(j - i) =~= data@.subrange(i as int, j as int));
            assert(s.skip(j - i) =~= data@.skip(j as int));
            assert(candles_of(s, interval) == seq![c] + candles_of(data@.skip(j as int), interval));
            assert(out@.push(c) + candles_of(data@.skip(j as int), interval) =~= out@ + (seq![c]
                + candles_of(data@.skip(j as int), interval)));
        }
        out.push(c);
        i = j;
    }
    assert(data@.skip(n as int) =~= Seq::<Tick>::empty());
    assert(out@ + candles_of(Seq::<Tick>::empty(), interval) =~= out@);
    out
}

/// The tick that a message of the event stream carries for a chart of
/// `contract`: the message must be an event object (`level`, `emitter`,
/// `payer`, `tag`, `data`), emitted by `contract`, tagged `"xrate"`, whose data
/// is a price.
pub open spec fn wire_tick(msg: Json, contract: Seq<char>) -> Option<Tick> {
    match msg {
        Json::Object(fs) => match (
            field(fs@, "level"@),
            field(fs@, "emitter"@),
            field(fs@, "payer"@),
            field(fs@, "tag"@),
            field(fs@, "data"@),
        ) {
            (
                Some(Json::Nat(level)),
                Some(Json::Str(emitter)),
                Some(Json::Str(_)),
                Some(Json::Str(tag)),
                Some(data),
            ) => if emitter@ == contract && tag@ == "xrate"@ {
                match data {
                    Json::Nat(price) => Some(Tick { time: level, price }),
                    _ => None,
                }
            } else {
                None
            },
            _ => None,
        },
        _ => None,
    }
}

fn str_member<'a>(fs: &'a Vec<(String, Json)>, key: &str) -> (r: Option<&'a String>)
    ensures
        match r {
            Some(x) => field(fs@, key@) == Some(Json::Str(*x)),
            None => !(field(fs@, key@) matches Some(Json::Str(_))),
        },
{
    match find_field(fs, &key.to_owned()) {
        Some(i) => match &fs[i].1 {
            Json::Str(x) => Some(x),
            _ => None,
        },
        None => None,
    }
}

fn nat_member(fs: &Vec<(String, Json)>, key: &str) -> (r: Option<u64>)
    ensures
        match r {
            Some(x) => field(fs@, key@) == Some(Json::Nat(x)),
            None => !(field(fs@, key@) matches Some(Json::Nat(_))),
        },
{
    match find_field(fs, &key.to_owned()) {
        Some(i) => match &fs[i].1 {
            Json::Nat(x) => Some(*x),
            _ => None,
        },
        None => None,
    }
}

/// Reads the tick for a chart of `contract` out of one message of the event
/// stream, if it carries one.
pub fn tick_of_message(msg: &Json, contract: &String) -> (r: Option<Tick>)
    ensures
        r == wire_tick(*msg, contract@),
{
    let fs = match msg {
        Json::Object(fs) => fs,
        _ => return None,
    };
    let level = match nat_member(fs, "level") {
        Some(l) => l,
        None => return None,
    };
    let emitter = match str_member(fs, "emitter") {
        Some(e) => e,
        None => return None,
    };
    if str_member(fs, "payer").is_none() {
        return None;
    }
    let tag = match str_member(fs, "tag") {
        Some(t) => t,
        None => return None,
    };
    if find_field(fs, &"data".to_owned()).is_none() {
        return None;
    }
    if *emitter != *contract || *tag != "xrate".to_owned() {
        return None;
    }
    match nat_member(fs, "data") {
        Some(price) => Some(Tick { time: level, price }),
        None => None,
    }
}

pub open spec fn lowest(s: Seq<Candle>) -> u64
    decreases s.len(),
{
    if s.len() <= 1 {
        s[0].low
    } else if lowest(s.drop_last()) <= s.last().low {
        lowest(s.drop_last())
    } else {
        s.last().low
    }
}

pub open spec fn highest(s: Seq<Candle>) -> u64
    decreases s.len(),
{
    if s.len() <= 1 {
        s[0].high
    } else if highest(s.drop_last()) >= s.last().high {
        highest(s.drop_last())
    } else {
        s.last().high
    }
}

/// The lowest low and the highest high of `candles`; `None` when there are
/// none.
pub fn price_range(candles: &Vec<Candle>) -> (r: Option<(u64, u64)>)
    ensures
        candles@.len() == 0 ==> r is None,
        candles@.len() > 0 ==> r == Some((lowest(candles@), highest(candles@))),
{
    if candles.len() == 0 {
        return None;
    }
    let mut low = candles[0].low;
    let mut high = candles[0].high;
    let mut i: usize = 1;
    while i < candles.len()
        invariant
            1 <= i <= candles@.len(),
            low == lowest(candles@.take(i as int)),
            high == highest(candles@.take(i as int)),
        decreases candles@.len() - i,
    {
        assert(candles@.take(i + 1).drop_last() =~= candles@.take(i as int));
        if candles[i].low < low {
            low = candles[i].low;
        }
        if candles[i].high > high {
            high = candles[i].high;
        }
        i = i + 1;
    }
    assert(candles@.take(i as int) =~= candles@);
    Some((low, high))
}

} // verus!
