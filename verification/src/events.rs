use vstd::prelude::*;
use vstd::std_specs::cmp::PartialEqSpec;

verus! {

/// A decoded key press, as the simulation sees it. An unverified input
/// source translates raw terminal events into this type.
#[derive(Clone, Copy, Debug)]
pub enum KeyPress {
    Esc,
    Left,
    Right,
    Up,
    Down,
    Char(char),
}

impl PartialEq for KeyPress {
    fn eq(&self, other: &KeyPress) -> (r: bool)
        ensures
            r == (*self == *other),
    {
        match (self, other) {
            (KeyPress::Esc, KeyPress::Esc) => true,
            (KeyPress::Left, KeyPress::Left) => true,
            (KeyPress::Right, KeyPress::Right) => true,
            (KeyPress::Up, KeyPress::Up) => true,
            (KeyPress::Down, KeyPress::Down) => true,
            (KeyPress::Char(a), KeyPress::Char(b)) => a == b,
            _ => false,
        }
    }
}

impl vstd::std_specs::cmp::PartialEqSpecImpl for KeyPress {
    open spec fn obeys_eq_spec() -> bool {
        true
    }

    open spec fn eq_spec(&self, other: &KeyPress) -> bool {
        *self == *other
    }
}

/// A buffer of pending input events, drained once per simulation tick so
/// that no key press is lost between ticks. The unverified shell shares it
/// between the input-producer thread and the simulation thread behind a
/// lock; the operations here describe what each access does to the queue.
pub struct KeyEventQueue<T: Send + Copy> {
    events: Vec<T>,
}

impl<T: Send + Copy> View for KeyEventQueue<T> {
    type V = Seq<T>;

    closed spec fn view(&self) -> Seq<T> {
        self.events@
    }
}

impl<T: Send + Copy> KeyEventQueue<T> {
    /// An empty queue.
    pub fn new() -> (queue: Self)
        ensures
            queue@ == Seq::<T>::empty(),
    {
        KeyEventQueue { events: Vec::new() }
    }

    /// Removes and discards every queued event, returning the most recent
    /// one, if any. Used in low-frequency polling contexts where only the
    /// newest intent matters and stale events must not accumulate.
    pub fn get_latest_event(&mut self) -> (latest: Option<T>)
        ensures
            final(self)@ == Seq::<T>::empty(),
            old(self)@.len() > 0 ==> latest == Some(old(self)@.last()),
            old(self)@.len() == 0 ==> latest is None,
    {
        let latest = self.events.pop();
        self.events.clear();
        latest
    }

    /// Atomically removes and returns all queued events, oldest first,
    /// leaving the queue empty.
    pub fn get_all_events(&mut self) -> (all: Option<Vec<T>>)
        ensures
            final(self)@ == Seq::<T>::empty(),
            all matches Some(events) && events@ == old(self)@,
    {
        let mut drained: Vec<T> = Vec::new();
        core::mem::swap(&mut self.events, &mut drained);
        Some(drained)
    }

    /// Appends `event` at the tail and returns the new queue length.
    pub fn add_event(&mut self, event: T) -> (count: usize)
        ensures
            final(self)@ == old(self)@.push(event),
            count == final(self)@.len(),
    {
        self.events.push(event);
        self.events.len()
    }
}

/// The events of `look_in` that `a` compares equal to, in their order
/// within `look_in`.
pub open spec fn matches_of_key<T: PartialEq>(look_in: Seq<T>, a: T) -> Seq<T>
    decreases look_in.len(),
{
    if look_in.len() == 0 {
        Seq::<T>::empty()
    } else if a.eq_spec(&look_in.last()) {
        matches_of_key(look_in.drop_last(), a).push(look_in.last())
    } else {
        matches_of_key(look_in.drop_last(), a)
    }
}

/// The matches of every key of `look_for` against `look_in`, grouped by
/// key in the order of `look_for`.
pub open spec fn matches_of_keys<T: PartialEq>(look_in: Seq<T>, look_for: Seq<T>) -> Seq<T>
    decreases look_for.len(),
{
    if look_for.len() == 0 {
        Seq::<T>::empty()
    } else {
        matches_of_keys(look_in, look_for.drop_last()) + matches_of_key(
            look_in,
            look_for.last(),
        )
    }
}

/// A key's match list is non-empty exactly when some element of
/// `look_in` compares equal to the key.
pub proof fn lemma_matches_of_key_nonempty<T: PartialEq>(look_in: Seq<T>, a: T)
    ensures
        matches_of_key(look_in, a).len() > 0 <==> exists|i: int|
            0 <= i < look_in.len() && a.eq_spec(&(#[trigger] look_in[i])),
    decreases look_in.len(),
{
    if look_in.len() > 0 {
        let rest = look_in.drop_last();
        lemma_matches_of_key_nonempty(rest, a);
        assert(forall|i: int| 0 <= i < rest.len() ==> #[trigger] rest[i] == look_in[i]);
        if a.eq_spec(&look_in.last()) {
            assert(a.eq_spec(&(look_in[look_in.len() - 1])));
        } else {
            if matches_of_key(look_in, a).len() > 0 {
                let i = choose|i: int| 0 <= i < rest.len() && a.eq_spec(&(#[trigger] rest[i]));
                assert(a.eq_spec(&(look_in[i])));
            }
            if exists|i: int| 0 <= i < look_in.len() && a.eq_spec(&(#[trigger] look_in[i])) {
                let i = choose|i: int|
                    0 <= i < look_in.len() && a.eq_spec(&(#[trigger] look_in[i]));
                if i < look_in.len() - 1 {
                    assert(a.eq_spec(&(rest[i])));
                } else {
                    assert(look_in[i] == look_in.last());
                }
            }
        }
    }
}

/// Collects, for each element of `look_for` in turn, the elements of
/// `look_in` equal to it. The result is grouped by the order of
/// `look_for`, not by arrival order within `look_in`.
pub fn find_matches<T: PartialEq + Copy>(look_in: &[T], look_for: &[T]) -> (found: Vec<T>)
    requires
        T::obeys_eq_spec(),
    ensures
        found@ == matches_of_keys(look_in@, look_for@),
{
    let mut found: Vec<T> = Vec::new();
    let mut i: usize = 0;
    while i < look_for.len()
        invariant
            T::obeys_eq_spec(),
            i <= look_for@.len(),
            found@ == matches_of_keys(look_in@, look_for@.subrange(0, i as int)),
        decreases look_for@.len() - i,
    {
        let a = look_for[i];
        let mut j: usize = 0;
        while j < look_in.len()
            invariant
                T::obeys_eq_spec(),
                i < look_for@.len(),
                j <= look_in@.len(),
                a == look_for@[i as int],
                found@ == matches_of_keys(look_in@, look_for@.subrange(0, i as int))
                    + matches_of_key(look_in@.subrange(0, j as int), a),
            decreases look_in@.len() - j,
        {
            let b = look_in[j];
            proof {
                assert(look_in@.subrange(0, j + 1 as int).drop_last() =~= look_in@.subrange(
                    0,
                    j as int,
                ));
                assert(look_in@.subrange(0, j + 1 as int).last() == look_in@[j as int]);
            }
            if a == b {
                found.push(b);
            }
            j = j + 1;
        }
        proof {
            assert(look_in@.subrange(0, look_in@.len() as int) =~= look_in@);
            assert(look_for@.subrange(0, i + 1 as int).drop_last() =~= look_for@.subrange(
                0,
                i as int,
            ));
            assert(look_for@.subrange(0, i + 1 as int).last() == look_for@[i as int]);
        }
        i = i + 1;
    }
    proof {
        assert(look_for@.subrange(0, look_for@.len() as int) =~= look_for@);
    }
    found
}

} // verus!
