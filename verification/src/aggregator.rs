//! The aggregator: the latest value of every producer, rendered as one line.
use vstd::hash_map::StringHashMap;
use vstd::prelude::*;
use vstd::string::StringExecFns;

verus! {

/// A value on its way from a producer to the aggregator.
#[derive(Debug, Clone, PartialEq, Eq)]
pub struct TaggedResult {
    /// The name of the producer that made the value.
    pub name: String,
    /// The display text.
    pub value: String,
}

/// What a tagged result says: a producer's name and its text.
pub struct Tagged {
    pub name: Seq<char>,
    pub value: Seq<char>,
}

impl View for TaggedResult {
    type V = Tagged;

    open spec fn view(&self) -> Tagged {
        Tagged { name: self.name@, value: self.value@ }
    }
}

/// The latest value of each producer that has reported, by name.
pub type Latest = Map<Seq<char>, Seq<char>>;

/// The state after one more result: the entry of its producer is replaced,
/// every other entry stays.
pub open spec fn absorb(latest: Latest, result: Tagged) -> Latest {
    latest.insert(result.name, result.value)
}

/// What a field shows: the latest value of its producer, or nothing while
/// the producer has not reported.
pub open spec fn slot(latest: Latest, name: Seq<char>) -> Seq<char> {
    if latest.contains_key(name) {
        latest[name]
    } else {
        Seq::empty()
    }
}

/// The slots of the fields of `order`, in that order.
pub open spec fn slots(order: Seq<Seq<char>>, latest: Latest) -> Seq<Seq<char>> {
    Seq::new(order.len(), |i: int| slot(latest, order[i]))
}

/// The parts in order, with the separator between each two neighbours.
pub open spec fn join(parts: Seq<Seq<char>>, separator: Seq<char>) -> Seq<char>
    decreases parts.len(),
{
    if parts.len() == 0 {
        Seq::empty()
    } else if parts.len() == 1 {
        parts[0]
    } else {
        join(parts.drop_last(), separator) + separator + parts.last()
    }
}

/// The status line: one slot per field of `order`, joined by the separator.
pub open spec fn composite(order: Seq<Seq<char>>, separator: Seq<char>, latest: Latest) -> Seq<
    char,
> {
    join(slots(order, latest), separator)
}

/// Joining one more part appends the separator and the part, except after
/// no part at all.
pub proof fn lemma_join_take(parts: Seq<Seq<char>>, separator: Seq<char>, i: int)
    requires
        0 <= i < parts.len(),
    ensures
        join(parts.take(i + 1), separator) == if i == 0 {
            parts[0]
        } else {
            join(parts.take(i), separator) + separator + parts[i]
        },
{
    let head = parts.take(i + 1);
    assert(head.last() == parts[i]);
    assert(head.drop_last() =~= parts.take(i));
    if i == 0 {
        assert(head[0] == parts[0]);
    }
}

/// The views of a list of names.
pub open spec fn names_view(names: Seq<String>) -> Seq<Seq<char>> {
    Seq::new(names.len(), |i: int| names[i]@)
}

/// The views of the values of a map keyed by name.
pub open spec fn values_view(entries: Map<Seq<char>, String>) -> Latest {
    entries.map_values(|v: String| v@)
}

/// Keeps the latest value per producer and renders the status line.
pub struct Aggregator {
    order: Vec<String>,
    separator: String,
    latest: StringHashMap<String>,
}

impl Aggregator {
    /// The names of the fields, in the order in which they are rendered.
    pub closed spec fn order(&self) -> Seq<Seq<char>> {
        names_view(self.order@)
    }

    /// The text between two neighbouring fields.
    pub closed spec fn separator(&self) -> Seq<char> {
        self.separator@
    }

    /// The aggregate state.
    pub closed spec fn latest(&self) -> Latest {
        values_view(self.latest@)
    }

    /// The line that `render` gives in this state.
    pub open spec fn line(&self) -> Seq<char> {
        composite(self.order(), self.separator(), self.latest())
    }

    /// An aggregator that has seen no result yet.
    pub fn new(order: Vec<String>, separator: String) -> (r: Aggregator)
        ensures
            r.order() == names_view(order@),
            r.separator() == separator@,
            r.latest() == Map::<Seq<char>, Seq<char>>::empty(),
    {
        let r = Aggregator { order, separator, latest: StringHashMap::new() };
        assert(r.latest() =~= Map::<Seq<char>, Seq<char>>::empty());
        r
    }

    /// The latest value of the producer `name`, if it has reported.
    pub fn value_of(&self, name: &str) -> (r: Option<&String>)
        ensures
            r is Some <==> self.latest().contains_key(name@),
            r matches Some(value) ==> value@ == self.latest()[name@],
    {
        self.latest.get(name)
    }

    /// Records a result without rendering.
    pub fn record(&mut self, result: TaggedResult)
        ensures
            final(self).order() == old(self).order(),
            final(self).separator() == old(self).separator(),
            final(self).latest() == absorb(old(self).latest(), result@),
    {
        let TaggedResult { name, value } = result;
        self.latest.insert(name, value);
        assert(self.latest() =~= absorb(old(self).latest(), result@));
    }

    /// The status line of the current state. Fields whose producer has not
    /// reported render as empty text.
    pub fn render(&self) -> (line: String)
        ensures
            line@ == self.line(),
    {
        let ghost parts = slots(self.order(), self.latest());
        let mut line = String::new();
        let mut i: usize = 0;
        assert(parts.take(0) =~= Seq::<Seq<char>>::empty());
        while i < self.order.len()
            invariant
                i <= self.order.len(),
                parts == slots(self.order(), self.latest()),
                parts.len() == self.order.len(),
                line@ == join(parts.take(i as int), self.separator()),
            decreases self.order.len() - i,
        {
            proof {
                lemma_join_take(parts, self.separator(), i as int);
            }
            if i > 0 {
                line.append(self.separator.as_str());
            }
            match self.latest.get(self.order[i].as_str()) {
                Some(value) => {
                    line.append(value.as_str());
                },
                None => {},
            }
            assert(parts[i as int] == slot(self.latest(), self.order@[i as int]@));
            assert(line@ =~= join(parts.take(i + 1), self.separator()));
            i += 1;
        }
        assert(parts.take(i as int) =~= parts);
        line
    }

    /// Takes one result in and renders the line that goes to the sink.
    pub fn update(&mut self, result: TaggedResult) -> (line: String)
        ensures
            final(self).order() == old(self).order(),
            final(self).separator() == old(self).separator(),
            final(self).latest() == absorb(old(self).latest(), result@),
            line@ == final(self).line(),
    {
        self.record(result);
        self.render()
    }
}

/// The state after a run of results, from `start`.
pub open spec fn replay(start: Latest, results: Seq<Tagged>) -> Latest
    decreases results.len(),
{
    if results.len() == 0 {
        start
    } else {
        absorb(replay(start, results.drop_last()), results.last())
    }
}

/// The value of the last result in the run that carries `name`, if any does.
pub open spec fn last_seen(results: Seq<Tagged>, name: Seq<char>) -> Option<Seq<char>>
    decreases results.len(),
{
    if results.len() == 0 {
        None
    } else if results.last().name == name {
        Some(results.last().value)
    } else {
        last_seen(results.drop_last(), name)
    }
}

/// What a field shows after a run of results: the value most recently seen
/// under its name, or nothing if none was.
pub open spec fn shown(results: Seq<Tagged>, name: Seq<char>) -> Seq<char> {
    match last_seen(results, name) {
        Some(value) => value,
        None => Seq::empty(),
    }
}

/// After any run of results delivered to a fresh aggregator, the state holds
/// under each name exactly the value most recently seen under it.
pub proof fn lemma_replay_is_last_seen(results: Seq<Tagged>, name: Seq<char>)
    ensures
        slot(replay(Map::empty(), results), name) == shown(results, name),
        replay(Map::empty(), results).contains_key(name) <==> last_seen(results, name) is Some,
    decreases results.len(),
{
    if results.len() > 0 {
        lemma_replay_is_last_seen(results.drop_last(), name);
    }
}

/// For every run of results delivered to a fresh aggregator, the line
/// rendered after the run is the join, in field order, of what each field
/// has most recently seen, with empty text for a field that has seen nothing.
/// A run that is cut after any of its updates is a run too, so this holds
/// after each update.
pub proof fn lemma_line_shows_most_recent(
    order: Seq<Seq<char>>,
    separator: Seq<char>,
    results: Seq<Tagged>,
)
    ensures
        composite(order, separator, replay(Map::empty(), results)) == join(
            Seq::new(order.len(), |i: int| shown(results, order[i])),
            separator,
        ),
{
    let state = replay(Map::empty(), results);
    assert forall|i: int| 0 <= i < order.len() implies slot(state, order[i]) == shown(
        results,
        order[i],
    ) by {
        lemma_replay_is_last_seen(results, order[i]);
    }
    assert(slots(order, state) =~= Seq::new(order.len(), |i: int| shown(results, order[i])));
}

/// A result changes the slot of its own producer and no other.
pub proof fn lemma_absorb_touches_one_slot(latest: Latest, result: Tagged, name: Seq<char>)
    ensures
        slot(absorb(latest, result), name) == if name == result.name {
            result.value
        } else {
            slot(latest, name)
        },
{
}

/// The line is a function of the field order, the separator and the state:
/// two aggregators that agree on the three render the same line, and so does
/// one aggregator rendered twice.
pub proof fn lemma_render_repeats(a: Aggregator, b: Aggregator)
    requires
        a.order() == b.order(),
        a.separator() == b.separator(),
        a.latest() == b.latest(),
    ensures
        a.line() == b.line(),
{
}

/// When every result of a run comes from a registered producer, the state
/// holds entries of registered producers only, and no more entries than
/// there are registered producers.
pub proof fn lemma_state_within_registered(registered: Set<Seq<char>>, results: Seq<Tagged>)
    requires
        registered.finite(),
        forall|i: int| 0 <= i < results.len() ==> registered.contains(#[trigger] results[i].name),
    ensures
        replay(Map::empty(), results).dom().subset_of(registered),
        replay(Map::empty(), results).dom().finite(),
        replay(Map::empty(), results).dom().len() <= registered.len(),
    decreases results.len(),
{
    if results.len() > 0 {
        let earlier = results.drop_last();
        assert forall|i: int| 0 <= i < earlier.len() implies registered.contains(
            #[trigger] earlier[i].name,
        ) by {
            assert(earlier[i] == results[i]);
        }
        lemma_state_within_registered(registered, earlier);
        assert(registered.contains(results[results.len() - 1].name));
    }
    vstd::set_lib::lemma_len_subset(replay(Map::empty(), results).dom(), registered);
}

} // verus!
