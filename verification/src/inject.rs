//! Turning received input events into the key and button actions to
//! inject, while tracking what is held so that everything can be released
//! at once (on `ReleaseAll`, on disconnect, or after an error).

use crate::keys::{code_to_key, spec_code_to_key, ClientKey, Platform};
use crate::protocol::{Event, MouseButton};
use vstd::prelude::*;

verus! {

/// A mouse button the client can inject.
#[derive(Clone, Copy, Debug, PartialEq, Eq, Structural)]
pub enum ClientButton {
    Left,
    Right,
    Middle,
    Back,
    Forward,
}

/// The injectable button for a protocol button.
pub open spec fn spec_client_button(b: MouseButton) -> ClientButton {
    match b {
        MouseButton::Left => ClientButton::Left,
        MouseButton::Right => ClientButton::Right,
        MouseButton::Middle => ClientButton::Middle,
        MouseButton::Back => ClientButton::Back,
        MouseButton::Forward => ClientButton::Forward,
    }
}

pub fn convert_mouse_button(b: MouseButton) -> (c: ClientButton)
    ensures
        c == spec_client_button(b),
{
    match b {
        MouseButton::Left => ClientButton::Left,
        MouseButton::Right => ClientButton::Right,
        MouseButton::Middle => ClientButton::Middle,
        MouseButton::Back => ClientButton::Back,
        MouseButton::Forward => ClientButton::Forward,
    }
}

/// One thing to do to the local input devices.
#[derive(Clone, Copy, Debug, PartialEq, Eq, Structural)]
pub enum InjectAction {
    MoveMouse { dx: i32, dy: i32 },
    Button { button: ClientButton, press: bool },
    /// Scroll by `length` notches; positive is down (vertical) or right.
    Scroll { length: i32, vertical: bool },
    Key { key: ClientKey, press: bool },
}

/// `s` with every `x` taken out.
pub open spec fn without<T>(s: Seq<T>, x: T) -> Seq<T>
    decreases s.len(),
{
    if s.len() == 0 {
        s
    } else if s.last() == x {
        without(s.drop_last(), x)
    } else {
        without(s.drop_last(), x).push(s.last())
    }
}

/// `s` with `x` added at the end unless it is there already.
pub open spec fn with<T>(s: Seq<T>, x: T) -> Seq<T> {
    if s.contains(x) {
        s
    } else {
        s.push(x)
    }
}

pub open spec fn distinct<T>(s: Seq<T>) -> bool {
    forall|i: int, j: int| 0 <= i < j < s.len() ==> s[i] != s[j]
}

/// The actions that release `keys` and then `buttons`, most recently
/// pressed first.
pub open spec fn release_actions(keys: Seq<ClientKey>, buttons: Seq<ClientButton>) -> Seq<
    InjectAction,
> {
    Seq::new(keys.len(), |i: int| InjectAction::Key { key: keys[keys.len() - 1 - i], press: false })
        + Seq::new(
        buttons.len(),
        |i: int| InjectAction::Button { button: buttons[buttons.len() - 1 - i], press: false },
    )
}

/// The mathematical content of an `InputInjector`.
pub struct InjectorView {
    pub held_keys: Seq<ClientKey>,
    pub held_buttons: Seq<ClientButton>,
    pub platform: Platform,
}

/// What one event does: the actions and what is held afterwards.
pub open spec fn spec_inject(m: InjectorView, event: Event) -> (InjectorView, Seq<InjectAction>) {
    match event {
        Event::MouseDelta { dx, dy } => (m, seq![InjectAction::MoveMouse { dx, dy }]),
        Event::MouseButtonPress(b) => {
            let c = spec_client_button(b);
            (
                InjectorView { held_buttons: with(m.held_buttons, c), ..m },
                seq![InjectAction::Button { button: c, press: true }],
            )
        },
        Event::MouseButtonRelease(b) => {
            let c = spec_client_button(b);
            (
                InjectorView { held_buttons: without(m.held_buttons, c), ..m },
                seq![InjectAction::Button { button: c, press: false }],
            )
        },
        Event::Wheel { delta_x, delta_y } => {
            // The vertical axis is flipped: a positive delta means the
            // wheel turned away from the user, which scrolls up.
            let v = if delta_y != 0 {
                seq![InjectAction::Scroll { length: (-delta_y) as i32, vertical: true }]
            } else {
                Seq::empty()
            };
            let h = if delta_x != 0 {
                seq![InjectAction::Scroll { length: delta_x, vertical: false }]
            } else {
                Seq::empty()
            };
            (m, v + h)
        },
        Event::KeyPress { code, modifiers: _ } => match spec_code_to_key(code, m.platform) {
            Some(k) => (
                InjectorView { held_keys: with(m.held_keys, k), ..m },
                seq![InjectAction::Key { key: k, press: true }],
            ),
            None => (m, Seq::empty()),
        },
        Event::KeyRelease { code, modifiers: _ } => match spec_code_to_key(code, m.platform) {
            Some(k) => (
                InjectorView { held_keys: without(m.held_keys, k), ..m },
                seq![InjectAction::Key { key: k, press: false }],
            ),
            None => (m, Seq::empty()),
        },
        Event::ReleaseAll => (
            InjectorView { held_keys: Seq::empty(), held_buttons: Seq::empty(), ..m },
            release_actions(m.held_keys, m.held_buttons),
        ),
    }
}

fn remove_key(v: &Vec<ClientKey>, x: ClientKey) -> (r: Vec<ClientKey>)
    ensures
        r@ == without(v@, x),
{
    let mut r: Vec<ClientKey> = Vec::new();
    let mut i: usize = 0;
    while i < v.len()
        invariant
            i <= v@.len(),
            r@ == without(v@.take(i as int), x),
        decreases v@.len() - i,
    {
        proof {
            assert(v@.take(i + 1).drop_last() =~= v@.take(i as int));
            assert(v@.take(i + 1).last() == v@[i as int]);
        }
        if v[i] != x {
            r.push(v[i]);
        }
        i = i + 1;
    }
    proof {
        assert(v@.take(v@.len() as int) =~= v@);
    }
    r
}

fn holds_key(v: &Vec<ClientKey>, x: ClientKey) -> (r: bool)
    ensures
        r == v@.contains(x),
{
    let mut i: usize = 0;
    while i < v.len()
        invariant
            i <= v@.len(),
            forall|j: int| 0 <= j < i ==> v@[j] != x,
        decreases v@.len() - i,
    {
        if v[i] == x {
            assert(v@[i as int] == x);
            return true;
        }
        i = i + 1;
    }
    false
}

fn remove_button(v: &Vec<ClientButton>, x: ClientButton) -> (r: Vec<ClientButton>)
    ensures
        r@ == without(v@, x),
{
    let mut r: Vec<ClientButton> = Vec::new();
    let mut i: usize = 0;
    while i < v.len()
        invariant
            i <= v@.len(),
            r@ == without(v@.take(i as int), x),
        decreases v@.len() - i,
    {
        proof {
            assert(v@.take(i + 1).drop_last() =~= v@.take(i as int));
            assert(v@.take(i + 1).last() == v@[i as int]);
        }
        if v[i] != x {
            r.push(v[i]);
        }
        i = i + 1;
    }
    proof {
        assert(v@.take(v@.len() as int) =~= v@);
    }
    r
}

fn holds_button(v: &Vec<ClientButton>, x: ClientButton) -> (r: bool)
    ensures
        r == v@.contains(x),
{
    let mut i: usize = 0;
    while i < v.len()
        invariant
            i <= v@.len(),
            forall|j: int| 0 <= j < i ==> v@[j] != x,
        decreases v@.len() - i,
    {
        if v[i] == x {
            assert(v@[i as int] == x);
            return true;
        }
        i = i + 1;
    }
    false
}

proof fn lemma_without_distinct<T>(s: Seq<T>, x: T)
    requires
        distinct(s),
    ensures
        distinct(without(s, x)),
        forall|y: T| #[trigger] without(s, x).contains(y) ==> s.contains(y) && y != x,
    decreases s.len(),
{
    if s.len() > 0 {
        let t = s.drop_last();
        assert(distinct(t)) by {
            assert forall|i: int, j: int| 0 <= i < j < t.len() implies t[i] != t[j] by {
                assert(t[i] == s[i] && t[j] == s[j]);
            }
        }
        lemma_without_distinct(t, x);
        let w = without(t, x);
        assert forall|y: T| #[trigger] without(s, x).contains(y) implies s.contains(y) && y != x by {
            if s.last() != x && y == s.last() {
                assert(s[s.len() - 1] == y);
            } else {
                assert(w.contains(y));
                let k = choose|k: int| 0 <= k < t.len() && t[k] == y;
                assert(s[k] == y);
            }
        }
        if s.last() != x {
            assert(!w.contains(s.last())) by {
                if w.contains(s.last()) {
                    let k = choose|k: int| 0 <= k < t.len() && t[k] == s.last();
                    assert(s[k] == s[s.len() - 1]);
                }
            }
            let r = w.push(s.last());
            assert forall|i: int, j: int| 0 <= i < j < r.len() implies r[i] != r[j] by {
                if j == r.len() - 1 {
                    assert(w.contains(r[i]));
                }
            }
        }
    }
}

/// The held keys and buttons of one session, and the platform it injects
/// on.
pub struct InputInjector {
    held_keys: Vec<ClientKey>,
    held_buttons: Vec<ClientButton>,
    platform: Platform,
}

impl InputInjector {
    pub closed spec fn view(&self) -> InjectorView {
        InjectorView {
            held_keys: self.held_keys@,
            held_buttons: self.held_buttons@,
            platform: self.platform,
        }
    }

    /// Nothing is held twice.
    pub open spec fn wf(&self) -> bool {
        distinct(self.view().held_keys) && distinct(self.view().held_buttons)
    }

    /// Nothing held yet.
    pub fn new(platform: Platform) -> (r: Self)
        ensures
            r.wf(),
            r.view() == (InjectorView {
                held_keys: Seq::empty(),
                held_buttons: Seq::empty(),
                platform,
            }),
    {
        InputInjector { held_keys: Vec::new(), held_buttons: Vec::new(), platform }
    }

    /// The actions that release everything held, most recently pressed
    /// first (keys, then buttons); afterwards nothing is held.
    pub fn release_all(&mut self) -> (actions: Vec<InjectAction>)
        requires
            old(self).wf(),
        ensures
            final(self).wf(),
            actions@ == release_actions(old(self).view().held_keys, old(self).view().held_buttons),
            final(self).view() == (InjectorView {
                held_keys: Seq::empty(),
                held_buttons: Seq::empty(),
                ..old(self).view()
            }),
    {
        let mut actions: Vec<InjectAction> = Vec::new();
        let keys = &self.held_keys;
        let nk = keys.len();
        let mut i: usize = 0;
        while i < nk
            invariant
                nk == keys@.len(),
                i <= nk,
                actions@ == Seq::new(
                    i as nat,
                    |j: int| InjectAction::Key { key: keys@[keys@.len() - 1 - j], press: false },
                ),
            decreases nk - i,
        {
            actions.push(InjectAction::Key { key: keys[nk - 1 - i], press: false });
            proof {
                assert(actions@ =~= Seq::new(
                    (i + 1) as nat,
                    |j: int| InjectAction::Key { key: keys@[keys@.len() - 1 - j], press: false },
                ));
            }
            i = i + 1;
        }
        let ghost key_part = actions@;
        let buttons = &self.held_buttons;
        let nb = buttons.len();
        let mut j: usize = 0;
        while j < nb
            invariant
                nb == buttons@.len(),
                j <= nb,
                actions@ == key_part + Seq::new(
                    j as nat,
                    |q: int| InjectAction::Button { button: buttons@[buttons@.len() - 1 - q], press: false },
                ),
            decreases nb - j,
        {
            actions.push(InjectAction::Button { button: buttons[nb - 1 - j], press: false });
            proof {
                assert(actions@ =~= key_part + Seq::new(
                    (j + 1) as nat,
                    |q: int| InjectAction::Button { button: buttons@[buttons@.len() - 1 - q], press: false },
                ));
            }
            j = j + 1;
        }
        self.held_keys = Vec::new();
        self.held_buttons = Vec::new();
        proof {
            assert(self.held_keys@ =~= Seq::<ClientKey>::empty());
            assert(self.held_buttons@ =~= Seq::<ClientButton>::empty());
        }
        actions
    }

    /// The actions for one received event; held keys and buttons are
    /// tracked, and key codes the platform has no key for are ignored.
    pub fn inject(&mut self, event: Event) -> (actions: Vec<InjectAction>)
        requires
            old(self).wf(),
            event matches Event::Wheel { delta_y, .. } ==> delta_y != i32::MIN,
        ensures
            final(self).wf(),
            (final(self).view(), actions@) == spec_inject(old(self).view(), event),
    {
        match event {
            Event::MouseDelta { dx, dy } => {
                let v = vec![InjectAction::MoveMouse { dx, dy }];
                proof {
                    assert(v@ =~= seq![InjectAction::MoveMouse { dx, dy }]);
                }
                v
            },
            Event::MouseButtonPress(b) => {
                let c = convert_mouse_button(b);
                if !holds_button(&self.held_buttons, c) {
                    self.held_buttons.push(c);
                    proof {
                        let s = old(self).view().held_buttons;
                        assert forall|i: int, j: int| 0 <= i < j < s.push(c).len() implies s.push(c)[i] != s.push(c)[j] by {
                            if j == s.len() {
                                assert(s.contains(s[i]));
                            }
                        }
                    }
                }
                let v = vec![InjectAction::Button { button: c, press: true }];
                proof {
                    assert(v@ =~= seq![InjectAction::Button { button: c, press: true }]);
                }
                v
            },
            Event::MouseButtonRelease(b) => {
                let c = convert_mouse_button(b);
                proof {
                    lemma_without_distinct(self.held_buttons@, c);
                }
                self.held_buttons = remove_button(&self.held_buttons, c);
                let v = vec![InjectAction::Button { button: c, press: false }];
                proof {
                    assert(v@ =~= seq![InjectAction::Button { button: c, press: false }]);
                }
                v
            },
            Event::Wheel { delta_x, delta_y } => {
                let mut v: Vec<InjectAction> = Vec::new();
                if delta_y != 0 {
                    v.push(InjectAction::Scroll { length: -delta_y, vertical: true });
                }
                if delta_x != 0 {
                    v.push(InjectAction::Scroll { length: delta_x, vertical: false });
                }
                proof {
                    let (_, expected) = spec_inject(old(self).view(), event);
                    assert(v@ =~= expected);
                }
                v
            },
            Event::KeyPress { code, modifiers: _ } => {
                match code_to_key(code, self.platform) {
                    Some(k) => {
                        if !holds_key(&self.held_keys, k) {
                            self.held_keys.push(k);
                            proof {
                                let s = old(self).view().held_keys;
                                assert forall|i: int, j: int| 0 <= i < j < s.push(k).len() implies s.push(k)[i] != s.push(k)[j] by {
                                    if j == s.len() {
                                        assert(s.contains(s[i]));
                                    }
                                }
                            }
                        }
                        let v = vec![InjectAction::Key { key: k, press: true }];
                        proof {
                            assert(v@ =~= seq![InjectAction::Key { key: k, press: true }]);
                        }
                        v
                    },
                    None => Vec::new(),
                }
            },
            Event::KeyRelease { code, modifiers: _ } => {
                match code_to_key(code, self.platform) {
                    Some(k) => {
                        proof {
                            lemma_without_distinct(self.held_keys@, k);
                        }
                        self.held_keys = remove_key(&self.held_keys, k);
                        let v = vec![InjectAction::Key { key: k, press: false }];
                        proof {
                            assert(v@ =~= seq![InjectAction::Key { key: k, press: false }]);
                        }
                        v
                    },
                    None => Vec::new(),
                }
            },
            Event::ReleaseAll => self.release_all(),
        }
    }
}

/// A released key or button is no longer held, and nothing is held after
/// `ReleaseAll`.
pub proof fn lemma_release_forgets(m: InjectorView, b: MouseButton, code: u32, modifiers: u8)
    requires
        distinct(m.held_keys),
        distinct(m.held_buttons),
    ensures
        !spec_inject(m, Event::MouseButtonRelease(b)).0.held_buttons.contains(spec_client_button(b)),
        spec_code_to_key(code, m.platform) matches Some(k) ==> !spec_inject(
            m,
            Event::KeyRelease { code, modifiers },
        ).0.held_keys.contains(k),
        spec_inject(m, Event::ReleaseAll).0.held_keys.len() == 0,
        spec_inject(m, Event::ReleaseAll).0.held_buttons.len() == 0,
{
    lemma_without_distinct(m.held_buttons, spec_client_button(b));
    if let Some(k) = spec_code_to_key(code, m.platform) {
        lemma_without_distinct(m.held_keys, k);
    }
}

} // verus!
