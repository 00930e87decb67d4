//! The latest state of each button, in the order of their names.
use vstd::prelude::*;
use vstd::string::*;

use crate::button::{ButtonEvent, EventView};
use crate::text::same_text;

verus! {

/// Whether a text comes before another one, character by character.
pub open spec fn comes_before(a: Seq<char>, b: Seq<char>) -> bool
    decreases b.len(),
{
    if b.len() == 0 {
        false
    } else if a.len() == 0 {
        true
    } else if a[0] != b[0] {
        a[0] < b[0]
    } else {
        comes_before(a.skip(1), b.skip(1))
    }
}

/// Whether a text comes before another one.
pub fn text_before(a: &str, b: &str) -> (yes: bool)
    ensures
        yes == comes_before(a@, b@),
{
    let n: usize = a.unicode_len();
    let m: usize = b.unicode_len();
    let mut i: usize = 0;
    assert(a@.skip(0) =~= a@ && b@.skip(0) =~= b@);
    while i < n && i < m
        invariant
            n == a@.len(),
            m == b@.len(),
            i <= n,
            i <= m,
            comes_before(a@, b@) == comes_before(a@.skip(i as int), b@.skip(i as int)),
        decreases n - i,
    {
        let x: char = a.get_char(i);
        let y: char = b.get_char(i);
        assert(a@.skip(i as int)[0] == x && b@.skip(i as int)[0] == y);
        if x != y {
            return x < y;
        }
        assert(a@.skip(i as int).skip(1) =~= a@.skip(i + 1));
        assert(b@.skip(i as int).skip(1) =~= b@.skip(i + 1));
        i += 1;
    }
    i < m
}

proof fn lemma_before_is_strict(a: Seq<char>, b: Seq<char>)
    ensures
        comes_before(a, b) ==> a != b && !comes_before(b, a),
        a != b ==> comes_before(a, b) || comes_before(b, a),
    decreases b.len(),
{
    if a.len() > 0 && b.len() > 0 {
        if a[0] == b[0] {
            lemma_before_is_strict(a.skip(1), b.skip(1));
            if a.skip(1) == b.skip(1) {
                assert(a =~= b) by {
                    assert forall|i: int| 0 <= i < a.len() implies a[i] == b[i] by {
                        if i > 0 {
                            assert(a[i] == a.skip(1)[i - 1]);
                            assert(b[i] == b.skip(1)[i - 1]);
                        }
                    }
                    assert(a.skip(1).len() == b.skip(1).len());
                }
            }
        }
    } else if a.len() == 0 && b.len() == 0 {
        assert(a =~= b);
    }
}

proof fn lemma_before_is_transitive(a: Seq<char>, b: Seq<char>, c: Seq<char>)
    requires
        comes_before(a, b),
        comes_before(b, c),
    ensures
        comes_before(a, c),
    decreases c.len(),
{
    if a.len() > 0 && b.len() > 0 && a[0] == b[0] && b[0] == c[0] {
        lemma_before_is_transitive(a.skip(1), b.skip(1), c.skip(1));
    }
}

/// Whether states stand in the order of their names, each name once.
pub open spec fn in_name_order(states: Seq<EventView>) -> bool {
    forall|i: int, j: int|
        0 <= i < j < states.len() ==> comes_before(
            (#[trigger] states[i]).button,
            (#[trigger] states[j]).button,
        )
}

/// States with another one put in its place, where it replaces an earlier one of its name.
pub open spec fn with_state(states: Seq<EventView>, event: EventView) -> Seq<EventView>
    decreases states.len(),
{
    if states.len() == 0 {
        seq![event]
    } else if states.last().button == event.button {
        states.drop_last().push(event)
    } else if comes_before(states.last().button, event.button) {
        states.push(event)
    } else {
        with_state(states.drop_last(), event).push(states.last())
    }
}

/// States with several others put in their places, one after the other.
pub open spec fn with_states(states: Seq<EventView>, events: Seq<EventView>) -> Seq<EventView>
    decreases events.len(),
{
    if events.len() == 0 {
        states
    } else {
        with_state(with_states(states, events.drop_last()), events.last())
    }
}

/// The state of a name.
pub open spec fn state_of(states: Seq<EventView>, name: Seq<char>) -> Option<EventView>
    decreases states.len(),
{
    if states.len() == 0 {
        None
    } else if states.last().button == name {
        Some(states.last())
    } else {
        state_of(states.drop_last(), name)
    }
}

/// The latest state of each button.
pub struct ButtonBoard {
    states: Vec<ButtonEvent>,
}

impl View for ButtonBoard {
    type V = Seq<EventView>;

    closed spec fn view(&self) -> Seq<EventView> {
        crate::button::event_views(self.states@)
    }
}

impl ButtonBoard {
    /// A board without any state.
    pub fn new() -> (board: ButtonBoard)
        ensures
            board@ == Seq::<EventView>::empty(),
    {
        let board = ButtonBoard { states: Vec::new() };
        assert(board@ =~= Seq::<EventView>::empty());
        board
    }

    /// How many buttons have a state.
    pub fn len(&self) -> (n: usize)
        ensures
            n == self@.len(),
    {
        self.states.len()
    }

    /// The state at a place.
    pub fn at(&self, i: usize) -> (event: &ButtonEvent)
        requires
            i < self@.len(),
        ensures
            event@ == self@[i as int],
    {
        &self.states[i]
    }

    /// The state of a name.
    pub fn get(&self, name: &str) -> (event: Option<&ButtonEvent>)
        ensures
            match event {
                Some(event) => state_of(self@, name@) == Some(event@),
                None => state_of(self@, name@) is None,
            },
    {
        let mut k: usize = self.states.len();
        assert(self@.take(k as int) =~= self@);
        while k > 0
            invariant
                k <= self.states@.len() == self@.len(),
                state_of(self@, name@) == state_of(self@.take(k as int), name@),
            decreases k,
        {
            assert(self@.take(k as int).drop_last() =~= self@.take(k - 1));
            assert(self@.take(k as int).last() == self.states@[k - 1]@);
            if same_text(self.states[k - 1].button.as_str(), name) {
                return Some(&self.states[k - 1]);
            }
            k -= 1;
        }
        None
    }

    /// Takes in a state.
    pub fn insert(&mut self, event: ButtonEvent)
        ensures
            final(self)@ == with_state(old(self)@, event@),
    {
        let ghost all = self@;
        let ghost new = event@;
        let mut k: usize = self.states.len();
        assert(all.take(k as int) =~= all);
        assert(all.skip(k as int) =~= Seq::<EventView>::empty());
        assert(with_state(all, new) =~= with_state(all.take(k as int), new) + all.skip(k as int));
        while k > 0
            invariant
                self@ == all,
                all == old(self)@,
                new == event@,
                k <= self.states@.len() == all.len(),
                with_state(all, new) == with_state(all.take(k as int), new) + all.skip(k as int),
            decreases k,
        {
            let ghost head = all.take(k as int);
            proof {
                assert(head.drop_last() =~= all.take(k - 1));
                assert(head.last() == self.states@[k - 1]@);
            }
            let name = self.states[k - 1].button.as_str();
            if same_text(name, event.button.as_str()) {
                self.states.set(k - 1, event);
                proof {
                    assert(self@ =~= all.update(k - 1, new));
                    assert(with_state(all, new) =~= all.update(k - 1, new));
                }
                return;
            }
            if text_before(name, event.button.as_str()) {
                self.states.insert(k, event);
                proof {
                    assert(self@ =~= all.insert(k as int, new));
                    assert(with_state(all, new) =~= all.insert(k as int, new));
                }
                return;
            }
            proof {
                assert(with_state(head, new) == with_state(all.take(k - 1), new).push(head.last()));
                assert(with_state(all, new) =~= with_state(all.take(k - 1), new) + all.skip(k - 1));
            }
            k -= 1;
        }
        self.states.insert(0, event);
        proof {
            assert(all.take(0) =~= Seq::<EventView>::empty());
            assert(self@ =~= all.insert(0, new));
            assert(with_state(all, new) =~= all.insert(0, new));
        }
    }

    /// Takes in the states that have piled up, so that the latest of each button remains.
    pub fn drain_button_events(&mut self, events: Vec<ButtonEvent>)
        ensures
            final(self)@ == with_states(old(self)@, crate::button::event_views(events@)),
    {
        let ghost before = self@;
        let ghost views = crate::button::event_views(events@);
        let mut i: usize = 0;
        assert(views.take(0) =~= Seq::<EventView>::empty());
        while i < events.len()
            invariant
                i <= events@.len(),
                views == crate::button::event_views(events@),
                self@ == with_states(before, views.take(i as int)),
            decreases events.len() - i,
        {
            let event = &events[i];
            let copy = ButtonEvent {
                button: event.button.clone(),
                pressed: event.pressed,
                count: event.count,
            };
            proof {
                assert(copy@ =~= views[i as int]);
                assert(views.take(i + 1).drop_last() =~= views.take(i as int));
            }
            self.insert(copy);
            i += 1;
        }
        assert(views.take(i as int) =~= views);
    }
}

proof fn lemma_names_of_with_state(states: Seq<EventView>, event: EventView, i: int)
    requires
        0 <= i < with_state(states, event).len(),
    ensures
        with_state(states, event)[i] == event || exists|j: int|
            0 <= j < states.len() && #[trigger] states[j] == with_state(states, event)[i],
    decreases states.len(),
{
    let after = with_state(states, event);
    if states.len() > 0 {
        if states.last().button == event.button || comes_before(
            states.last().button,
            event.button,
        ) {
            if after[i] != event {
                assert(states[i] == after[i]);
            }
        } else if i == after.len() - 1 {
            assert(states[states.len() - 1] == after[i]);
        } else {
            let rest = states.drop_last();
            lemma_names_of_with_state(rest, event, i);
            assert(after[i] == with_state(rest, event)[i]);
            if after[i] != event {
                let j = choose|j: int| 0 <= j < rest.len() && #[trigger] rest[j] == after[i];
                assert(states[j] == after[i]);
            }
        }
    }
}

/// Taking in a state keeps the names in order, each once.
pub proof fn law_board_stays_in_order(states: Seq<EventView>, event: EventView)
    requires
        in_name_order(states),
    ensures
        in_name_order(with_state(states, event)),
    decreases states.len(),
{
    let after = with_state(states, event);
    if states.len() > 0 {
        let last = states.last();
        let rest = states.drop_last();
        assert(in_name_order(rest)) by {
            assert forall|i: int, j: int| 0 <= i < j < rest.len() implies comes_before(
                (#[trigger] rest[i]).button,
                (#[trigger] rest[j]).button,
            ) by {
                assert(comes_before(states[i].button, states[j].button));
            }
        }
        assert forall|i: int| 0 <= i < rest.len() implies comes_before(
            (#[trigger] rest[i]).button,
            last.button,
        ) by {
            assert(comes_before(states[i].button, states[states.len() - 1].button));
        }
        law_board_stays_in_order(rest, event);
        if last.button == event.button {
        } else if comes_before(last.button, event.button) {
            assert forall|i: int, j: int| 0 <= i < j < after.len() implies comes_before(
                (#[trigger] after[i]).button,
                (#[trigger] after[j]).button,
            ) by {
                if j < states.len() {
                    assert(comes_before(states[i].button, states[j].button));
                } else if i < rest.len() {
                    assert(comes_before(rest[i].button, last.button));
                    lemma_before_is_transitive(after[i].button, last.button, event.button);
                }
            }
        } else {
            lemma_before_is_strict(event.button, last.button);
            let inner = with_state(rest, event);
            assert forall|i: int, j: int| 0 <= i < j < after.len() implies comes_before(
                (#[trigger] after[i]).button,
                (#[trigger] after[j]).button,
            ) by {
                assert(after[i] == inner[i]);
                if j < inner.len() {
                    assert(after[j] == inner[j]);
                } else {
                    lemma_names_of_with_state(rest, event, i);
                    if inner[i] != event {
                        let k = choose|k: int| 0 <= k < rest.len() && #[trigger] rest[k] == inner[i];
                        assert(comes_before(rest[k].button, last.button));
                    }
                }
            }
        }
    }
}

/// The latest state of a button is the one that remains, and taking it in does not touch the
/// other buttons.
pub proof fn law_latest_state_remains(states: Seq<EventView>, event: EventView, name: Seq<char>)
    requires
        in_name_order(states),
    ensures
        state_of(with_state(states, event), name) == if name == event.button {
            Some(event)
        } else {
            state_of(states, name)
        },
    decreases states.len(),
{
    let after = with_state(states, event);
    if states.len() == 0 {
        assert(after.drop_last() =~= states);
    } else {
        let rest = states.drop_last();
        assert(in_name_order(rest)) by {
            assert forall|i: int, j: int| 0 <= i < j < rest.len() implies comes_before(
                (#[trigger] rest[i]).button,
                (#[trigger] rest[j]).button,
            ) by {
                assert(comes_before(states[i].button, states[j].button));
            }
        }
        law_latest_state_remains(rest, event, name);
        if states.last().button == event.button {
            assert(after.drop_last() =~= rest);
        } else if comes_before(states.last().button, event.button) {
            assert(after.drop_last() =~= states);
        } else {
            assert(after.drop_last() =~= with_state(rest, event));
        }
    }
}

/// The last of several states that has a name.
pub open spec fn last_of(events: Seq<EventView>, name: Seq<char>) -> Option<EventView>
    decreases events.len(),
{
    if events.len() == 0 {
        None
    } else if events.last().button == name {
        Some(events.last())
    } else {
        last_of(events.drop_last(), name)
    }
}

/// However many states have piled up, taking them in leaves the last one of each button, and
/// the earlier state of those that have none among them.
pub proof fn law_backlog_leaves_the_latest_states(
    states: Seq<EventView>,
    events: Seq<EventView>,
    name: Seq<char>,
)
    requires
        in_name_order(states),
    ensures
        in_name_order(with_states(states, events)),
        state_of(with_states(states, events), name) == match last_of(events, name) {
            Some(event) => Some(event),
            None => state_of(states, name),
        },
    decreases events.len(),
{
    if events.len() > 0 {
        law_backlog_leaves_the_latest_states(states, events.drop_last(), name);
        let before = with_states(states, events.drop_last());
        law_board_stays_in_order(before, events.last());
        law_latest_state_remains(before, events.last(), name);
    }
}

/// The order of the names is that of a dictionary: at the first place where two texts differ the
/// lesser character comes first, and a text comes before one that it begins.
pub proof fn law_order_is_that_of_a_dictionary(a: Seq<char>, b: Seq<char>, k: int)
    requires
        0 <= k <= a.len(),
        k <= b.len(),
        forall|i: int| 0 <= i < k ==> a[i] == b[i],
    ensures
        k < a.len() && k < b.len() && a[k] < b[k] ==> comes_before(a, b),
        k < a.len() && k < b.len() && a[k] > b[k] ==> !comes_before(a, b),
        k == a.len() && k < b.len() ==> comes_before(a, b),
        k == b.len() ==> !comes_before(a, b),
    decreases k,
{
    if k > 0 {
        assert(a[0] == b[0]);
        assert forall|i: int| 0 <= i < k - 1 implies a.skip(1)[i] == b.skip(1)[i] by {
            assert(a[i + 1] == b[i + 1]);
        }
        law_order_is_that_of_a_dictionary(a.skip(1), b.skip(1), k - 1);
    }
}

/// The state that is found under a name is one of those on the board and has that name, and none
/// is found exactly if there is none.
pub proof fn law_states_are_found_by_name(states: Seq<EventView>, name: Seq<char>)
    ensures
        state_of(states, name) matches Some(event) ==> event.button == name && states.contains(
            event,
        ),
        state_of(states, name) is None ==> forall|i: int|
            0 <= i < states.len() ==> (#[trigger] states[i]).button != name,
    decreases states.len(),
{
    if states.len() > 0 {
        let rest = states.drop_last();
        law_states_are_found_by_name(rest, name);
        if states.last().button == name {
            assert(states[states.len() - 1] == states.last());
        } else if let Some(event) = state_of(rest, name) {
            let i = choose|i: int| 0 <= i < rest.len() && rest[i] == event;
            assert(states[i] == event);
        } else {
            assert forall|i: int| 0 <= i < states.len() implies (#[trigger] states[i]).button
                != name by {
                if i < rest.len() {
                    assert(rest[i] == states[i]);
                }
            }
        }
    }
}

/// The state that counts of several is the last one of its name.
pub proof fn law_last_of_is_the_last(events: Seq<EventView>, name: Seq<char>, i: int)
    requires
        0 <= i < events.len(),
        events[i].button == name,
        forall|j: int| i < j < events.len() ==> (#[trigger] events[j]).button != name,
    ensures
        last_of(events, name) == Some(events[i]),
    decreases events.len(),
{
    if i < events.len() - 1 {
        assert(events[events.len() - 1].button != name);
        assert forall|j: int| i < j < events.drop_last().len() implies (
        #[trigger] events.drop_last()[j]).button != name by {
            assert(events[j].button != name);
        }
        law_last_of_is_the_last(events.drop_last(), name, i);
    }
}

} // verus!
