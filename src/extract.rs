use crate::event::{events_view, opt_events_view, Event, EventV};
use crate::json::{field, find_field, member, take_value, Json};
use vstd::prelude::*;

verus! {

/// Decodes each item of `s` with `f` and joins the results in order; `None`
/// as soon as one item does not decode.
pub open spec fn flat(s: Seq<Json>, f: spec_fn(Json) -> Option<Seq<EventV>>) -> Option<Seq<EventV>>
    decreases s.len(),
{
    if s.len() == 0 {
        Some(Seq::empty())
    } else {
        match (flat(s.drop_last(), f), f(s.last())) {
            (Some(a), Some(b)) => Some(a + b),
            _ => None,
        }
    }
}

/// An event's tag: the `tag` member when it is a string, `"default"` when it
/// is absent or null.
pub open spec fn tag_of(t: Option<Json>) -> Option<Seq<char>> {
    match t {
        None => Some("default"@),
        Some(Json::Null) => Some("default"@),
        Some(Json::Str(s)) => Some(s@),
        _ => None,
    }
}

/// Events of one internal operation result of a transaction sent to `emitter`.
/// Only the `event` kind yields one; other kinds yield none.
pub open spec fn result_events(r: Json, level: u64, emitter: Seq<char>) -> Option<Seq<EventV>> {
    match r {
        Json::Object(fs) => match field(fs@, "kind"@) {
            Some(Json::Str(k)) => if k@ != "event"@ {
                Some(Seq::empty())
            } else {
                match (
                    field(fs@, "type"@),
                    field(fs@, "source"@),
                    tag_of(field(fs@, "tag"@)),
                    field(fs@, "payload"@),
                ) {
                    (Some(ty), Some(Json::Str(src)), Some(tag), Some(data)) => Some(
                        seq![(EventV { level, emitter, payer: src@, tag, data, ty })],
                    ),
                    _ => None,
                }
            },
            _ => None,
        },
        _ => None,
    }
}

pub open spec fn result_fn(level: u64, emitter: Seq<char>) -> spec_fn(Json) -> Option<Seq<EventV>> {
    |r: Json| result_events(r, level, emitter)
}

/// Events of one operation content. Only a `transaction` yields events: those
/// of its `metadata.internal_operation_results`, emitted by its `destination`.
pub open spec fn content_events(c: Json, level: u64) -> Option<Seq<EventV>> {
    match c {
        Json::Object(fs) => match field(fs@, "kind"@) {
            Some(Json::Str(k)) => if k@ != "transaction"@ {
                Some(Seq::empty())
            } else {
                match (field(fs@, "destination"@), field(fs@, "metadata"@)) {
                    (Some(Json::Str(dest)), Some(Json::Object(mfs))) => match field(
                        mfs@,
                        "internal_operation_results"@,
                    ) {
                        None => Some(Seq::empty()),
                        Some(Json::Array(rs)) => flat(rs@, result_fn(level, dest@)),
                        _ => None,
                    },
                    _ => None,
                }
            },
            _ => None,
        },
        _ => None,
    }
}

pub open spec fn content_fn(level: u64) -> spec_fn(Json) -> Option<Seq<EventV>> {
    |c: Json| content_events(c, level)
}

/// Events of one operation: those of its `contents`, in order.
pub open spec fn op_events(op: Json, level: u64) -> Option<Seq<EventV>> {
    match op {
        Json::Object(fs) => match field(fs@, "contents"@) {
            None => Some(Seq::empty()),
            Some(Json::Array(cs)) => flat(cs@, content_fn(level)),
            _ => None,
        },
        _ => None,
    }
}

pub open spec fn op_fn(level: u64) -> spec_fn(Json) -> Option<Seq<EventV>> {
    |op: Json| op_events(op, level)
}

/// The batch of manager operations of a block, when its `operations` member
/// is an array of at least four batches.
pub open spec fn manager_batch(block: Json) -> Option<Json> {
    match member(block, "operations"@) {
        Some(Json::Array(bs)) => if bs@.len() >= 4 {
            Some(bs@[3])
        } else {
            None
        },
        _ => None,
    }
}

/// Events of a block at `level`: `None` when its manager batch does not
/// decode as an array of operations.
pub open spec fn block_events(block: Json, level: u64) -> Option<Seq<EventV>> {
    match manager_batch(block) {
        None => Some(Seq::empty()),
        Some(Json::Array(ops)) => flat(ops@, op_fn(level)),
        Some(_) => None,
    }
}

proof fn lemma_flat_none_extends(s: Seq<Json>, k: int, f: spec_fn(Json) -> Option<Seq<EventV>>)
    requires
        0 <= k <= s.len(),
        flat(s.subrange(0, k), f) is None,
    ensures
        flat(s, f) is None,
    decreases s.len() - k,
{
    if k < s.len() {
        assert(s.subrange(0, k + 1).drop_last() =~= s.subrange(0, k));
        lemma_flat_none_extends(s, k + 1, f);
    } else {
        assert(s.subrange(0, k) =~= s);
    }
}

proof fn lemma_flat_step(
    s: Seq<Json>,
    k: int,
    f: spec_fn(Json) -> Option<Seq<EventV>>,
    a: Seq<EventV>,
    b: Seq<EventV>,
)
    requires
        0 <= k < s.len(),
        flat(s.subrange(0, k), f) == Some(a),
        f(s[k]) == Some(b),
    ensures
        flat(s.subrange(0, k + 1), f) == Some(a + b),
{
    assert(s.subrange(0, k + 1).drop_last() =~= s.subrange(0, k));
}

proof fn lemma_append_view(a: Seq<Event>, b: Seq<Event>)
    ensures
        events_view(a + b) == events_view(a) + events_view(b),
{
    assert(events_view(a + b) =~= events_view(a) + events_view(b));
}

fn result_events_exec(r: Json, level: u64, emitter: &String) -> (res: Option<Vec<Event>>)
    ensures
        opt_events_view(res) == result_events(r, level, emitter@),
{
    let mut fs = match r {
        Json::Object(fs) => fs,
        _ => return None,
    };
    let ghost fs0 = fs@;
    let is_event = match find_field(&fs, &"kind".to_owned()) {
        None => return None,
        Some(i) => match &fs[i].1 {
            Json::Str(k) => *k == "event".to_owned(),
            _ => return None,
        },
    };
    if !is_event {
        return Some(Vec::new());
    }
    let payer = match find_field(&fs, &"source".to_owned()) {
        None => return None,
        Some(i) => match &fs[i].1 {
            Json::Str(s) => s.clone(),
            _ => return None,
        },
    };
    let tag = match find_field(&fs, &"tag".to_owned()) {
        None => "default".to_owned(),
        Some(i) => match &fs[i].1 {
            Json::Null => "default".to_owned(),
            Json::Str(t) => t.clone(),
            _ => return None,
        },
    };
    let type_key = "type".to_owned();
    let payload_key = "payload".to_owned();
    let ti = match find_field(&fs, &type_key) {
        None => return None,
        Some(i) => i,
    };
    let pi = match find_field(&fs, &payload_key) {
        None => return None,
        Some(i) => i,
    };
    proof {
        reveal_strlit("type");
        reveal_strlit("payload");
        assert(type_key@.len() != payload_key@.len());
    }
    assert(ti != pi);
    let ty = take_value(&mut fs, ti);
    let pj = if pi > ti { pi - 1 } else { pi };
    assert(fs@[pj as int] == fs0[pi as int]);
    let data = take_value(&mut fs, pj);
    let ev = Event { level, emitter: emitter.clone(), payer, tag, data, ty };
    let mut out: Vec<Event> = Vec::new();
    out.push(ev);
    assert(events_view(out@) =~= seq![ev@]);
    Some(out)
}

fn results_events_exec(rs: Vec<Json>, level: u64, emitter: &String) -> (res: Option<Vec<Event>>)
    ensures
        opt_events_view(res) == flat(rs@, result_fn(level, emitter@)),
{
    let ghost orig = rs@;
    let ghost f = result_fn(level, emitter@);
    let mut rest = rs;
    let mut acc: Vec<Event> = Vec::new();
    let mut k: usize = 0;
    let n: usize = rest.len();
    assert(orig.subrange(0, 0) =~= Seq::<Json>::empty());
    assert(events_view(acc@) =~= Seq::<EventV>::empty());
    while rest.len() > 0
        invariant
            f == result_fn(level, emitter@),
            k <= orig.len(),
            rest@ == orig.subrange(k as int, orig.len() as int),
            orig == rs@,
            orig.len() == n,
            flat(orig.subrange(0, k as int), f) == Some(events_view(acc@)),
        decreases rest@.len(),
    {
        let x = rest.remove(0);
        assert(x == orig[k as int]);
        assert(f(x) == result_events(x, level, emitter@));
        match result_events_exec(x, level, emitter) {
            None => {
                proof {
                    let s1 = orig.subrange(0, k + 1);
                    assert(s1.drop_last() =~= orig.subrange(0, k as int));
                    assert(s1.last() == x);
                    assert(flat(s1, f) is None);
                    lemma_flat_none_extends(orig, k + 1, f);
                }
                return None;
            },
            Some(mut v) => {
                proof {
                    lemma_flat_step(orig, k as int, f, events_view(acc@), events_view(v@));
                    lemma_append_view(acc@, v@);
                }
                acc.append(&mut v);
            },
        }
        k = k + 1;
    }
    assert(orig.subrange(0, k as int) =~= orig);
    Some(acc)
}

fn content_events_exec(c: Json, level: u64) -> (res: Option<Vec<Event>>)
    ensures
        opt_events_view(res) == content_events(c, level),
{
    let mut fs = match c {
        Json::Object(fs) => fs,
        _ => return None,
    };
    let is_transaction = match find_field(&fs, &"kind".to_owned()) {
        None => return None,
        Some(i) => match &fs[i].1 {
            Json::Str(k) => *k == "transaction".to_owned(),
            _ => return None,
        },
    };
    if !is_transaction {
        return Some(Vec::new());
    }
    let emitter = match find_field(&fs, &"destination".to_owned()) {
        None => return None,
        Some(i) => match &fs[i].1 {
            Json::Str(d) => d.clone(),
            _ => return None,
        },
    };
    let mut mfs = match find_field(&fs, &"metadata".to_owned()) {
        None => return None,
        Some(i) => match take_value(&mut fs, i) {
            Json::Object(mfs) => mfs,
            _ => return None,
        },
    };
    match find_field(&mfs, &"internal_operation_results".to_owned()) {
        None => Some(Vec::new()),
        Some(i) => match take_value(&mut mfs, i) {
            Json::Array(rs) => results_events_exec(rs, level, &emitter),
            _ => None,
        },
    }
}

fn contents_events_exec(cs: Vec<Json>, level: u64) -> (res: Option<Vec<Event>>)
    ensures
        opt_events_view(res) == flat(cs@, content_fn(level)),
{
    let ghost orig = cs@;
    let ghost f = content_fn(level);
    let mut rest = cs;
    let mut acc: Vec<Event> = Vec::new();
    let mut k: usize = 0;
    let n: usize = rest.len();
    assert(orig.subrange(0, 0) =~= Seq::<Json>::empty());
    assert(events_view(acc@) =~= Seq::<EventV>::empty());
    while rest.len() > 0
        invariant
            f == content_fn(level),
            k <= orig.len(),
            rest@ == orig.subrange(k as int, orig.len() as int),
            orig == cs@,
            orig.len() == n,
            flat(orig.subrange(0, k as int), f) == Some(events_view(acc@)),
        decreases rest@.len(),
    {
        let x = rest.remove(0);
        assert(x == orig[k as int]);
        assert(f(x) == content_events(x, level));
        match content_events_exec(x, level) {
            None => {
                proof {
                    let s1 = orig.subrange(0, k + 1);
                    assert(s1.drop_last() =~= orig.subrange(0, k as int));
                    assert(s1.last() == x);
                    assert(flat(s1, f) is None);
                    lemma_flat_none_extends(orig, k + 1, f);
                }
                return None;
            },
            Some(mut v) => {
                proof {
                    lemma_flat_step(orig, k as int, f, events_view(acc@), events_view(v@));
                    lemma_append_view(acc@, v@);
                }
                acc.append(&mut v);
            },
        }
        k = k + 1;
    }
    assert(orig.subrange(0, k as int) =~= orig);
    Some(acc)
}

fn op_events_exec(op: Json, level: u64) -> (res: Option<Vec<Event>>)
    ensures
        opt_events_view(res) == op_events(op, level),
{
    let mut fs = match op {
        Json::Object(fs) => fs,
        _ => return None,
    };
    match find_field(&fs, &"contents".to_owned()) {
        None => Some(Vec::new()),
        Some(i) => match take_value(&mut fs, i) {
            Json::Array(cs) => contents_events_exec(cs, level),
            _ => None,
        },
    }
}

fn ops_events_exec(ops: Vec<Json>, level: u64) -> (res: Option<Vec<Event>>)
    ensures
        opt_events_view(res) == flat(ops@, op_fn(level)),
{
    let ghost orig = ops@;
    let ghost f = op_fn(level);
    let mut rest = ops;
    let mut acc: Vec<Event> = Vec::new();
    let mut k: usize = 0;
    let n: usize = rest.len();
    assert(orig.subrange(0, 0) =~= Seq::<Json>::empty());
    assert(events_view(acc@) =~= Seq::<EventV>::empty());
    while rest.len() > 0
        invariant
            f == op_fn(level),
            k <= orig.len(),
            rest@ == orig.subrange(k as int, orig.len() as int),
            orig == ops@,
            orig.len() == n,
            flat(orig.subrange(0, k as int), f) == Some(events_view(acc@)),
        decreases rest@.len(),
    {
        let x = rest.remove(0);
        assert(x == orig[k as int]);
        assert(f(x) == op_events(x, level));
        match op_events_exec(x, level) {
            None => {
                proof {
                    let s1 = orig.subrange(0, k + 1);
                    assert(s1.drop_last() =~= orig.subrange(0, k as int));
                    assert(s1.last() == x);
                    assert(flat(s1, f) is None);
                    lemma_flat_none_extends(orig, k + 1, f);
                }
                return None;
            },
            Some(mut v) => {
                proof {
                    lemma_flat_step(orig, k as int, f, events_view(acc@), events_view(v@));
                    lemma_append_view(acc@, v@);
                }
                acc.append(&mut v);
            },
        }
        k = k + 1;
    }
    assert(orig.subrange(0, k as int) =~= orig);
    Some(acc)
}

/// Decodes the events of a block at `level`, in the order in which their
/// operations, contents and internal results stand in the block. Only the
/// fourth batch of `operations` (the manager operations) is read; a block
/// with fewer than four batches has no events. `None` when that batch does
/// not decode as an array of operations.
pub fn extract_events(block: Json, level: u64) -> (res: Option<Vec<Event>>)
    ensures
        opt_events_view(res) == block_events(block, level),
{
    let mut bfs = match block {
        Json::Object(fs) => fs,
        _ => return Some(Vec::new()),
    };
    let mut batches = match find_field(&bfs, &"operations".to_owned()) {
        None => return Some(Vec::new()),
        Some(i) => match take_value(&mut bfs, i) {
            Json::Array(bs) => bs,
            _ => return Some(Vec::new()),
        },
    };
    if batches.len() < 4 {
        return Some(Vec::new());
    }
    match batches.remove(3) {
        Json::Array(ops) => ops_events_exec(ops, level),
        _ => None,
    }
}

/// An event result without a `tag` member gets the tag `"default"`.
pub proof fn missing_tag_defaults(
    r: Json,
    kind: String,
    src: String,
    ty: Json,
    data: Json,
    level: u64,
    emitter: Seq<char>,
)
    requires
        kind@ == "event"@,
        member(r, "kind"@) == Some(Json::Str(kind)),
        member(r, "source"@) == Some(Json::Str(src)),
        member(r, "type"@) == Some(ty),
        member(r, "payload"@) == Some(data),
        member(r, "tag"@) is None,
    ensures
        result_events(r, level, emitter) == Some(
            seq![(EventV { level, emitter, payer: src@, tag: "default"@, data, ty })],
        ),
{
}

/// Only the manager batch of a block is read: two blocks with at least four
/// batches each and the same fourth batch have the same events, whatever
/// their first three batches hold.
pub proof fn only_manager_batch_read(b1: Json, b2: Json, o1: Vec<Json>, o2: Vec<Json>, level: u64)
    requires
        member(b1, "operations"@) == Some(Json::Array(o1)),
        member(b2, "operations"@) == Some(Json::Array(o2)),
        o1@.len() >= 4,
        o2@.len() >= 4,
        o1@[3] == o2@[3],
    ensures
        block_events(b1, level) == block_events(b2, level),
{
}

} // verus!
