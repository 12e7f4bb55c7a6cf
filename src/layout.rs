//! keyberon's layout engine, held so that a record of everything it was
//! handed can only grow by the calls that hand it on.
use vstd::prelude::*;
use keyberon::layout::{Event, Layout};

verus! {

#[verifier::external_type_specification]
#[verifier::external_body]
pub struct ExLayout(Layout);

/// What the tick task hands to the layout engine.
#[derive(Clone, Copy, Debug, PartialEq, Eq, Structural)]
pub enum LayoutInput {
    Press { row: u8, col: u8 },
    Release { row: u8, col: u8 },
    Tick,
}

/// Whether a layout engine's layers keep it clear of keyberon's panics: no
/// hold-tap can start while another one is undecided (none inside a
/// multiple-action cell, none as the hold or tap action of another), and the
/// layer numbers that can be held at once add up within `usize`. The layers
/// never change after `Layout::new`.
pub uninterp spec fn layers_ok(l: Layout) -> bool;

/// The keycodes a layout engine resolves in its current state, each as its
/// HID usage byte.
pub uninterp spec fn layout_codes(l: Layout) -> Seq<u8>;

/// Relies on keyberon's `Layout::event`: hands a key press to the layout engine.
#[verifier::external_body]
fn layout_press(l: &mut Layout, row: u8, col: u8)
    requires
        layers_ok(*old(l)),
    ensures
        layers_ok(*final(l)),
{
    l.event(Event::Press(row, col));
}

/// Relies on keyberon's `Layout::event`: hands a key release to the layout engine.
#[verifier::external_body]
fn layout_release(l: &mut Layout, row: u8, col: u8)
    requires
        layers_ok(*old(l)),
    ensures
        layers_ok(*final(l)),
{
    l.event(Event::Release(row, col));
}

/// Relies on keyberon's `Layout::tick`: advances the engine's timers by one tick.
#[verifier::external_body]
fn layout_tick(l: &mut Layout)
    requires
        layers_ok(*old(l)),
    ensures
        layers_ok(*final(l)),
{
    l.tick();
}

/// Relies on keyberon's `Layout::keycodes`: the keycodes the engine resolves
/// now, each as its HID usage byte.
#[verifier::external_body]
fn layout_keycodes(l: &Layout) -> (r: Vec<u8>)
    ensures
        r@ == layout_codes(*l),
{
    l.keycodes().map(|kc| kc as u8).collect()
}

/// keyberon's layout engine with the record of its inputs. Only the methods
/// below touch either field, each writing the record beside its one call.
pub struct LayoutEngine {
    layout: Layout,
    handed: Ghost<Seq<LayoutInput>>,
}

impl LayoutEngine {
    /// Everything handed to the layout engine since it was wrapped, in order.
    pub closed spec fn handed(&self) -> Seq<LayoutInput> {
        self.handed@
    }

    /// The keycodes the layout engine resolves now.
    pub closed spec fn codes(&self) -> Seq<u8> {
        layout_codes(self.layout)
    }

    /// Whether the layers keep the layout engine clear of panics.
    pub closed spec fn safe(&self) -> bool {
        layers_ok(self.layout)
    }

    /// Wraps a layout engine; nothing is recorded yet.
    pub fn new(layout: Layout) -> (e: LayoutEngine)
        ensures
            e.handed() == Seq::<LayoutInput>::empty(),
            e.codes() == layout_codes(layout),
            e.safe() == layers_ok(layout),
    {
        LayoutEngine { layout, handed: Ghost(Seq::empty()) }
    }

    /// The wrapped layout engine, to read its keycodes.
    pub fn layout(&self) -> (l: &Layout)
        ensures
            layout_codes(*l) == self.codes(),
    {
        &self.layout
    }

    /// Hands a key press to the layout engine.
    pub fn press(&mut self, row: u8, col: u8)
        requires
            old(self).safe(),
        ensures
            final(self).safe(),
            final(self).handed() == old(self).handed().push(LayoutInput::Press { row, col }),
    {
        layout_press(&mut self.layout, row, col);
        self.handed = Ghost(self.handed@.push(LayoutInput::Press { row, col }));
    }

    /// Hands a key release to the layout engine.
    pub fn release(&mut self, row: u8, col: u8)
        requires
            old(self).safe(),
        ensures
            final(self).safe(),
            final(self).handed() == old(self).handed().push(LayoutInput::Release { row, col }),
    {
        layout_release(&mut self.layout, row, col);
        self.handed = Ghost(self.handed@.push(LayoutInput::Release { row, col }));
    }

    /// Advances the layout engine by one tick.
    pub fn tick(&mut self)
        requires
            old(self).safe(),
        ensures
            final(self).safe(),
            final(self).handed() == old(self).handed().push(LayoutInput::Tick),
    {
        layout_tick(&mut self.layout);
        self.handed = Ghost(self.handed@.push(LayoutInput::Tick));
    }

    /// The keycodes the layout engine resolves now, as HID usage bytes.
    pub fn keycodes(&self) -> (r: Vec<u8>)
        ensures
            r@ == self.codes(),
    {
        layout_keycodes(&self.layout)
    }
}

} // verus!
