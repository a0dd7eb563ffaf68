//! The panel layout controller: which of the keypad and the tabbed pane
//! (history or convert page) are shown, in floating or pinned keypad mode,
//! and the window height that follows from it.

use vstd::prelude::*;
use crate::settings::{
    default_settings, parse_settings, settings_result, Settings, SettingsError,
};

verus! {

/// The page that the tabbed pane shows.
#[derive(Clone, Copy, Debug, PartialEq, Eq, Structural)]
pub enum TabPage {
    History,
    Convert,
}

/// An event that the layout controller reacts to.
#[derive(Clone, Copy, Debug, PartialEq, Eq, Structural)]
pub enum PanelEvent {
    /// The keypad expander was opened (`true`) or closed.
    KeypadExpanded(bool),
    /// The history expander was opened (`true`) or closed.
    HistoryExpanded(bool),
    /// The convert expander was opened (`true`) or closed.
    ConvertExpanded(bool),
    /// The keypad lock was clicked: floating and pinned mode swap.
    PinToggled,
}

/// The height of a window with every section collapsed.
pub const COLLAPSED_HEIGHT: i64 = 76;

/// The margin added with each container shown.
pub const CONTAINER_MARGIN: i64 = 9;

/// The control row that the convert page shows beside a pinned keypad.
pub const EXTRA_ROW: i64 = 6;

/// The bound on how far the height may stray from what the layout asks.
pub const HEIGHT_SLACK: i64 = 0x100_0000_0000;

/// The state of the main window's layout.
#[derive(Clone, Copy, Debug, PartialEq, Eq, Structural)]
pub struct Window {
    /// Pinned mode: the keypad stays beside the tabbed pane.
    pub persistent_keypad: bool,
    pub keypad_expanded: bool,
    pub history_expanded: bool,
    pub convert_expanded: bool,
    pub keypad_visible: bool,
    pub tabs_visible: bool,
    pub page: TabPage,
    pub width: i32,
    pub height: i64,
    pub maximized: bool,
    /// The natural height of the keypad container.
    pub keypad_height: i32,
    /// The natural height of the tabbed pane.
    pub tabs_height: i32,
}

/// What showing a container of natural height `h` adds to the window height.
pub open spec fn contribution(h: i32) -> int {
    if h > 10 { h + CONTAINER_MARGIN } else { CONTAINER_MARGIN as int }
}

/// The extra row: pinned mode, keypad shown, convert page open.
pub open spec fn extra_row(w: Window) -> int {
    if w.persistent_keypad && w.keypad_visible && w.convert_expanded { EXTRA_ROW as int } else { 0 }
}

/// What the shown containers add to the window height.
pub open spec fn extent(w: Window) -> int {
    (if w.keypad_visible { contribution(w.keypad_height) } else { 0 }) + (if w.tabs_visible {
        contribution(w.tabs_height)
    } else {
        0
    }) + extra_row(w)
}

/// The visibility rules, floating mode's exclusion aside.
pub open spec fn sections_ok(w: Window) -> bool {
    &&& w.keypad_visible == w.keypad_expanded
    &&& w.tabs_visible == (w.history_expanded || w.convert_expanded)
    &&& !(w.history_expanded && w.convert_expanded)
    &&& w.history_expanded ==> w.page == TabPage::History
    &&& w.convert_expanded ==> w.page == TabPage::Convert
}

/// All visibility rules: in floating mode at most one of keypad and tabbed pane shows.
pub open spec fn layout_ok(w: Window) -> bool {
    &&& sections_ok(w)
    &&& !w.persistent_keypad ==> !(w.keypad_visible && w.tabs_visible)
}

/// The height stays within reach of what the layout asks.
pub open spec fn bounded(w: Window) -> bool {
    -HEIGHT_SLACK <= w.height - extent(w) <= HEIGHT_SLACK
}

/// `n`, with the height of `w` moved by the change in what the containers add.
pub open spec fn relaid(w: Window, n: Window) -> Window {
    Window { height: (w.height - extent(w) + extent(n)) as i64, ..n }
}

/// The layout after the keypad expander is set to `e`.
pub open spec fn keypad_expanded_to(w: Window, e: bool) -> Window {
    let p = w.persistent_keypad;
    if e == w.keypad_expanded {
        w
    } else if e {
        relaid(
            w,
            Window {
                keypad_expanded: true,
                keypad_visible: true,
                history_expanded: p && w.history_expanded,
                convert_expanded: p && w.convert_expanded,
                tabs_visible: p && w.tabs_visible,
                ..w
            },
        )
    } else {
        relaid(w, Window { keypad_expanded: false, keypad_visible: false, ..w })
    }
}

/// The layout after the history expander is set to `e`.
pub open spec fn history_expanded_to(w: Window, e: bool) -> Window {
    let p = w.persistent_keypad;
    if e == w.history_expanded {
        w
    } else if e {
        relaid(
            w,
            Window {
                history_expanded: true,
                convert_expanded: false,
                tabs_visible: true,
                page: TabPage::History,
                keypad_expanded: p && w.keypad_expanded,
                keypad_visible: p && w.keypad_visible,
                ..w
            },
        )
    } else {
        relaid(w, Window { history_expanded: false, tabs_visible: false, ..w })
    }
}

/// The layout after the convert expander is set to `e`.
pub open spec fn convert_expanded_to(w: Window, e: bool) -> Window {
    let p = w.persistent_keypad;
    if e == w.convert_expanded {
        w
    } else if e {
        relaid(
            w,
            Window {
                convert_expanded: true,
                history_expanded: false,
                tabs_visible: true,
                page: TabPage::Convert,
                keypad_expanded: p && w.keypad_expanded,
                keypad_visible: p && w.keypad_visible,
                ..w
            },
        )
    } else {
        relaid(w, Window { convert_expanded: false, tabs_visible: false, ..w })
    }
}

/// The layout after the keypad lock is clicked: leaving pinned mode closes
/// the keypad if the tabbed pane is shown.
pub open spec fn pin_toggled(w: Window) -> Window {
    if w.persistent_keypad {
        let keep = w.keypad_visible && !w.tabs_visible;
        relaid(
            w,
            Window {
                persistent_keypad: false,
                keypad_expanded: keep,
                keypad_visible: keep,
                ..w
            },
        )
    } else {
        Window { persistent_keypad: true, ..w }
    }
}

/// The layout after one event.
pub open spec fn step(w: Window, e: PanelEvent) -> Window {
    match e {
        PanelEvent::KeypadExpanded(b) => keypad_expanded_to(w, b),
        PanelEvent::HistoryExpanded(b) => history_expanded_to(w, b),
        PanelEvent::ConvertExpanded(b) => convert_expanded_to(w, b),
        PanelEvent::PinToggled => pin_toggled(w),
    }
}

/// The layout after a sequence of events, the first one first.
pub open spec fn run(w: Window, events: Seq<PanelEvent>) -> Window
    decreases events.len(),
{
    if events.len() == 0 {
        w
    } else {
        step(run(w, events.drop_last()), events.last())
    }
}

fn contribution_of(h: i32) -> (r: i64)
    ensures
        r == contribution(h),
{
    if h > 10 {
        h as i64 + CONTAINER_MARGIN
    } else {
        CONTAINER_MARGIN
    }
}

impl Window {
    pub open spec fn wf(&self) -> bool {
        layout_ok(*self) && bounded(*self)
    }

    /// Shows or hides the keypad container. Showing it in floating mode hides
    /// the tabbed pane; the height follows what the containers add.
    pub fn show_keypad_widget(&mut self, do_show: bool)
        requires
            bounded(*old(self)),
        ensures
            *final(self) == (if do_show == old(self).keypad_visible {
                *old(self)
            } else {
                relaid(
                    *old(self),
                    Window {
                        keypad_visible: do_show,
                        tabs_visible: old(self).tabs_visible && (old(self).persistent_keypad
                            || !do_show),
                        ..*old(self)
                    },
                )
            }),
            bounded(*final(self)),
    {
        if do_show == self.keypad_visible {
            return;
        }
        let p = self.persistent_keypad;
        let mut h = self.height;
        if do_show {
            if !p && self.tabs_visible {
                h = h - contribution_of(self.tabs_height);
                self.tabs_visible = false;
            }
            if p && self.convert_expanded {
                h = h + EXTRA_ROW;
            }
            self.keypad_visible = true;
            h = h + contribution_of(self.keypad_height);
        } else {
            if p && self.convert_expanded {
                h = h - EXTRA_ROW;
            }
            self.keypad_visible = false;
            h = h - contribution_of(self.keypad_height);
        }
        self.height = h;
    }

    /// Shows or hides the tabbed pane. Showing it in floating mode hides the
    /// keypad; the height follows what the containers add.
    pub fn show_tabs(&mut self, do_show: bool)
        requires
            bounded(*old(self)),
        ensures
            *final(self) == (if do_show == old(self).tabs_visible {
                *old(self)
            } else {
                relaid(
                    *old(self),
                    Window {
                        tabs_visible: do_show,
                        keypad_visible: old(self).keypad_visible && (old(self).persistent_keypad
                            || !do_show),
                        ..*old(self)
                    },
                )
            }),
            bounded(*final(self)),
    {
        if do_show == self.tabs_visible {
            return;
        }
        let p = self.persistent_keypad;
        let mut h = self.height;
        if do_show {
            if !p && self.keypad_visible {
                h = h - contribution_of(self.keypad_height);
                self.keypad_visible = false;
            }
            self.tabs_visible = true;
            h = h + contribution_of(self.tabs_height);
        } else {
            self.tabs_visible = false;
            h = h - contribution_of(self.tabs_height);
        }
        self.height = h;
    }

    fn collapse_keypad(&mut self)
        requires
            bounded(*old(self)),
        ensures
            *final(self) == (if old(self).keypad_expanded {
                relaid(*old(self), Window { keypad_expanded: false, keypad_visible: false, ..*old(self) })
            } else {
                *old(self)
            }),
            bounded(*final(self)),
    {
        if self.keypad_expanded {
            self.keypad_expanded = false;
            self.show_keypad_widget(false);
        }
    }

    fn collapse_history(&mut self)
        requires
            bounded(*old(self)),
        ensures
            *final(self) == (if old(self).history_expanded {
                relaid(
                    *old(self),
                    Window {
                        history_expanded: false,
                        tabs_visible: old(self).tabs_visible && old(self).convert_expanded,
                        ..*old(self)
                    },
                )
            } else {
                *old(self)
            }),
            bounded(*final(self)),
    {
        if self.history_expanded {
            self.history_expanded = false;
            if !self.convert_expanded {
                self.show_tabs(false);
            }
        }
    }

    fn collapse_convert(&mut self)
        requires
            bounded(*old(self)),
        ensures
            *final(self) == (if old(self).convert_expanded {
                relaid(
                    *old(self),
                    Window {
                        convert_expanded: false,
                        tabs_visible: old(self).tabs_visible && old(self).history_expanded,
                        ..*old(self)
                    },
                )
            } else {
                *old(self)
            }),
            bounded(*final(self)),
    {
        if self.convert_expanded {
            if self.persistent_keypad && self.keypad_visible {
                self.height = self.height - EXTRA_ROW;
            }
            self.convert_expanded = false;
            if !self.history_expanded {
                self.show_tabs(false);
            }
        }
    }
}

impl Window {
    /// Reacts to the keypad expander being set to `expanded`. Opening it in
    /// floating mode closes the history and convert sections.
    pub fn on_expander_keypad_expanded(&mut self, expanded: bool)
        requires
            old(self).wf(),
        ensures
            *final(self) == keypad_expanded_to(*old(self), expanded),
            final(self).wf(),
    {
        if expanded == self.keypad_expanded {
            return;
        }
        self.keypad_expanded = expanded;
        if expanded {
            self.show_keypad_widget(true);
            if !self.persistent_keypad {
                self.collapse_history();
                self.collapse_convert();
            }
        } else {
            self.show_keypad_widget(false);
        }
    }

    /// Reacts to the history expander being set to `expanded`. Opening it
    /// shows the history page and closes the convert section, and in floating
    /// mode the keypad.
    pub fn on_expander_history_expanded(&mut self, expanded: bool)
        requires
            old(self).wf(),
        ensures
            *final(self) == history_expanded_to(*old(self), expanded),
            final(self).wf(),
    {
        if expanded == self.history_expanded {
            return;
        }
        self.history_expanded = expanded;
        if expanded {
            self.page = TabPage::History;
            self.show_tabs(true);
            if !self.persistent_keypad {
                self.collapse_keypad();
            }
            self.collapse_convert();
        } else if !self.convert_expanded {
            self.show_tabs(false);
        }
    }

    /// Reacts to the convert expander being set to `expanded`. Opening it
    /// shows the convert page and closes the history section, and in floating
    /// mode the keypad.
    pub fn on_expander_convert_expanded(&mut self, expanded: bool)
        requires
            old(self).wf(),
        ensures
            *final(self) == convert_expanded_to(*old(self), expanded),
            final(self).wf(),
    {
        if expanded == self.convert_expanded {
            return;
        }
        if self.persistent_keypad && self.keypad_visible {
            if expanded {
                self.height = self.height + EXTRA_ROW;
            } else {
                self.height = self.height - EXTRA_ROW;
            }
        }
        self.convert_expanded = expanded;
        if expanded {
            self.page = TabPage::Convert;
            self.show_tabs(true);
            if !self.persistent_keypad {
                self.collapse_keypad();
            }
            self.collapse_history();
        } else if !self.history_expanded {
            self.show_tabs(false);
        }
    }

    /// Brings the keypad in line with the current mode. In floating mode with
    /// the tabbed pane shown the keypad closes; otherwise, when
    /// `show_hide_buttons` is set, pinned mode opens the keypad.
    pub fn update_persistent_keypad(&mut self, show_hide_buttons: bool)
        requires
            sections_ok(*old(self)),
            bounded(*old(self)),
        ensures
            *final(self) == ({
                let w = *old(self);
                let p = w.persistent_keypad;
                if (show_hide_buttons || (!p && w.tabs_visible)) && (p || w.tabs_visible) {
                    relaid(w, Window { keypad_expanded: p, keypad_visible: p, ..w })
                } else {
                    w
                }
            }),
            final(self).wf(),
    {
        let p = self.persistent_keypad;
        let mut show_hide = show_hide_buttons;
        if !p && self.tabs_visible {
            show_hide = true;
        }
        if show_hide && (p || self.tabs_visible) {
            self.keypad_expanded = p;
            self.show_keypad_widget(p);
        }
    }

    /// Swaps floating and pinned keypad mode, as the keypad lock does.
    pub fn toggle_persistent_keypad(&mut self)
        requires
            old(self).wf(),
        ensures
            *final(self) == pin_toggled(*old(self)),
            final(self).wf(),
    {
        let pinned = !self.persistent_keypad;
        if self.keypad_visible && self.convert_expanded {
            if pinned {
                self.height = self.height + EXTRA_ROW;
            } else {
                self.height = self.height - EXTRA_ROW;
            }
        }
        self.persistent_keypad = pinned;
        self.update_persistent_keypad(false);
    }

    /// Applies one event.
    pub fn handle(&mut self, event: PanelEvent)
        requires
            old(self).wf(),
        ensures
            *final(self) == step(*old(self), event),
            final(self).wf(),
    {
        match event {
            PanelEvent::KeypadExpanded(b) => self.on_expander_keypad_expanded(b),
            PanelEvent::HistoryExpanded(b) => self.on_expander_history_expanded(b),
            PanelEvent::ConvertExpanded(b) => self.on_expander_convert_expanded(b),
            PanelEvent::PinToggled => self.toggle_persistent_keypad(),
        }
    }

    /// Applies the events in order.
    pub fn handle_all(&mut self, events: &Vec<PanelEvent>)
        requires
            old(self).wf(),
        ensures
            *final(self) == run(*old(self), events@),
            final(self).wf(),
    {
        let ghost start = *self;
        let mut i: usize = 0;
        while i < events.len()
            invariant
                i <= events@.len(),
                self.wf(),
                *self == run(start, events@.subrange(0, i as int)),
            decreases events@.len() - i,
        {
            proof {
                assert(events@.subrange(0, i + 1).drop_last() =~= events@.subrange(0, i as int));
            }
            self.handle(events[i]);
            i = i + 1;
        }
        assert(events@.subrange(0, events@.len() as int) =~= events@);
    }

    /// The icon of the keypad lock: closed in pinned mode, open in floating mode.
    pub fn keypad_lock_icon(&self) -> (r: &'static str)
        ensures
            r@ == (if self.persistent_keypad {
                "changes-prevent-symbolic"@
            } else {
                "changes-allow-symbolic"@
            }),
    {
        if self.persistent_keypad {
            "changes-prevent-symbolic"
        } else {
            "changes-allow-symbolic"
        }
    }

    /// Whether the keypad takes up the free height: always in floating mode,
    /// and in pinned mode while the tabbed pane is hidden.
    pub fn keypad_fills_height(&self) -> (r: bool)
        ensures
            r == (!self.persistent_keypad || !self.tabs_visible),
    {
        !self.persistent_keypad || !self.tabs_visible
    }
}

/// One event keeps the visibility rules, and moves the height by exactly the
/// change in what the shown containers add.
pub proof fn lemma_step(w: Window, e: PanelEvent)
    requires
        w.wf(),
    ensures
        step(w, e).wf(),
        step(w, e).height - extent(step(w, e)) == w.height - extent(w),
{
}

/// Any sequence of events keeps the visibility rules, and the height moves by
/// exactly the change in what the shown containers add.
pub proof fn lemma_run(w: Window, events: Seq<PanelEvent>)
    requires
        w.wf(),
    ensures
        run(w, events).wf(),
        run(w, events).height - extent(run(w, events)) == w.height - extent(w),
    decreases events.len(),
{
    if events.len() > 0 {
        lemma_run(w, events.drop_last());
        lemma_step(run(w, events.drop_last()), events.last());
    }
}

/// In floating mode, after any sequence of events, the keypad and the tabbed
/// pane are never shown together.
pub proof fn lemma_floating_exclusive(w: Window, events: Seq<PanelEvent>)
    requires
        w.wf(),
    ensures
        !run(w, events).persistent_keypad ==> !(run(w, events).keypad_visible && run(
            w,
            events,
        ).tabs_visible),
{
    lemma_run(w, events);
}

/// Whether the keypad shows after `events`, from `shown`, going by the keypad
/// expander's events alone.
pub open spec fn keypad_after(shown: bool, events: Seq<PanelEvent>) -> bool
    decreases events.len(),
{
    if events.len() == 0 {
        shown
    } else {
        match events.last() {
            PanelEvent::KeypadExpanded(b) => b,
            _ => keypad_after(shown, events.drop_last()),
        }
    }
}

/// Which of history and convert are open after `events`, from `open`, going
/// by those two expanders' events alone.
pub open spec fn tabs_after(open: (bool, bool), events: Seq<PanelEvent>) -> (bool, bool)
    decreases events.len(),
{
    if events.len() == 0 {
        open
    } else {
        let before = tabs_after(open, events.drop_last());
        match events.last() {
            PanelEvent::HistoryExpanded(b) => if b {
                (true, false)
            } else {
                (false, before.1)
            },
            PanelEvent::ConvertExpanded(b) => if b {
                (false, true)
            } else {
                (before.0, false)
            },
            _ => before,
        }
    }
}

/// In pinned mode, with no click of the keypad lock, the keypad's visibility
/// depends on the keypad expander's events alone, and the tabbed pane's on the
/// history and convert expanders' events alone.
pub proof fn lemma_pinned_independent(w: Window, events: Seq<PanelEvent>)
    requires
        w.wf(),
        w.persistent_keypad,
        forall|i: int| 0 <= i < events.len() ==> events[i] != PanelEvent::PinToggled,
    ensures
        run(w, events).persistent_keypad,
        run(w, events).keypad_visible == keypad_after(w.keypad_visible, events),
        (run(w, events).history_expanded, run(w, events).convert_expanded) == tabs_after(
            (w.history_expanded, w.convert_expanded),
            events,
        ),
        run(w, events).tabs_visible == (tabs_after(
            (w.history_expanded, w.convert_expanded),
            events,
        ).0 || tabs_after((w.history_expanded, w.convert_expanded), events).1),
    decreases events.len(),
{
    lemma_run(w, events);
    if events.len() > 0 {
        let pre = events.drop_last();
        assert forall|i: int| 0 <= i < pre.len() implies pre[i] != PanelEvent::PinToggled by {
            assert(pre[i] == events[i]);
        }
        lemma_pinned_independent(w, pre);
        lemma_run(w, pre);
        assert(events.last() == events[events.len() - 1]);
    }
}

/// The layout that stored settings open with: pinned mode opens what was
/// open (history rather than convert, should both be); floating mode opens a
/// section only if it was the one open. The height is the collapsed height
/// plus what the shown containers add.
pub open spec fn loaded(s: Settings, keypad_height: i32, tabs_height: i32) -> Window {
    let p = s.persistent_keypad;
    let k = s.keypad_expanded;
    let h = s.history_expanded;
    let c = s.convert_expanded;
    let ke = (p && k) || (!p && k && !h && !c);
    let he = (p && h) || (!p && !k && h && !c);
    let ce = (p && c && !h) || (!p && !k && !h && c);
    let n = Window {
        persistent_keypad: p,
        keypad_expanded: ke,
        history_expanded: he,
        convert_expanded: ce,
        keypad_visible: ke,
        tabs_visible: he || ce,
        page: if ce { TabPage::Convert } else { TabPage::History },
        width: s.window_width,
        height: COLLAPSED_HEIGHT,
        maximized: s.is_maximized,
        keypad_height,
        tabs_height,
    };
    Window { height: (COLLAPSED_HEIGHT + extent(n)) as i64, ..n }
}

/// The layout of a window without stored settings: the default sections, at
/// the collapsed height.
pub open spec fn default_window(keypad_height: i32, tabs_height: i32) -> Window {
    Window { height: COLLAPSED_HEIGHT, ..loaded(default_settings(), keypad_height, tabs_height) }
}

/// The settings that a window stores.
pub open spec fn settings_of(w: Window) -> Settings {
    Settings {
        persistent_keypad: w.persistent_keypad,
        keypad_expanded: w.keypad_expanded,
        history_expanded: w.history_expanded,
        convert_expanded: w.convert_expanded,
        window_width: w.width,
        is_maximized: w.maximized,
    }
}

/// Storing a window's settings and loading them again gives back its
/// sections, its mode, its width and its maximized state, with the height
/// that the geometry rule gives for that layout.
pub proof fn lemma_settings_round_trip(w: Window)
    requires
        w.wf(),
    ensures
        ({
            let r = loaded(settings_of(w), w.keypad_height, w.tabs_height);
            &&& r.wf()
            &&& r.persistent_keypad == w.persistent_keypad
            &&& r.keypad_expanded == w.keypad_expanded
            &&& r.history_expanded == w.history_expanded
            &&& r.convert_expanded == w.convert_expanded
            &&& r.keypad_visible == w.keypad_visible
            &&& r.tabs_visible == w.tabs_visible
            &&& r.width == w.width
            &&& r.maximized == w.maximized
            &&& extent(r) == extent(w)
            &&& r.height == COLLAPSED_HEIGHT + extent(r)
        }),
{
}

impl Window {
    /// The layout that `settings` open with, for containers of the given
    /// natural heights.
    pub fn from_settings(settings: &Settings, keypad_height: i32, tabs_height: i32) -> (r: Window)
        ensures
            r == loaded(*settings, keypad_height, tabs_height),
            r.wf(),
    {
        let p = settings.persistent_keypad;
        let k = settings.keypad_expanded;
        let h = settings.history_expanded;
        let c = settings.convert_expanded;
        let ke = (p && k) || (!p && k && !h && !c);
        let he = (p && h) || (!p && !k && h && !c);
        let ce = (p && c && !h) || (!p && !k && !h && c);
        let mut w = Window {
            persistent_keypad: p,
            keypad_expanded: ke,
            history_expanded: he,
            convert_expanded: ce,
            keypad_visible: false,
            tabs_visible: false,
            page: if ce { TabPage::Convert } else { TabPage::History },
            width: settings.window_width,
            height: COLLAPSED_HEIGHT,
            maximized: settings.is_maximized,
            keypad_height,
            tabs_height,
        };
        w.show_keypad_widget(ke);
        w.show_tabs(he || ce);
        w
    }

    /// The layout of a window without stored settings: the default sections
    /// at the collapsed height.
    pub fn new(keypad_height: i32, tabs_height: i32) -> (r: Window)
        ensures
            r == default_window(keypad_height, tabs_height),
            r.wf(),
    {
        let mut w = Window::from_settings(&Settings::default(), keypad_height, tabs_height);
        w.height = COLLAPSED_HEIGHT;
        w
    }

    /// The layout to open with, from the text of the stored settings document
    /// if there is one. A document that gives no settings is passed over for
    /// the defaults, and the reason is returned beside them.
    pub fn load_settings(text: Option<&str>, keypad_height: i32, tabs_height: i32) -> (r: (
        Window,
        Option<SettingsError>,
    ))
        ensures
            r == (match text {
                None => (default_window(keypad_height, tabs_height), None),
                Some(t) => match settings_result(t@) {
                    Ok(s) => (loaded(s, keypad_height, tabs_height), None),
                    Err(e) => (default_window(keypad_height, tabs_height), Some(e)),
                },
            }),
            r.0.wf(),
    {
        match text {
            None => (Window::new(keypad_height, tabs_height), None),
            Some(t) => match parse_settings(t) {
                Ok(s) => (Window::from_settings(&s, keypad_height, tabs_height), None),
                Err(e) => (Window::new(keypad_height, tabs_height), Some(e)),
            },
        }
    }

    /// The settings to store for this window.
    pub fn settings(&self) -> (r: Settings)
        ensures
            r == settings_of(*self),
    {
        Settings {
            persistent_keypad: self.persistent_keypad,
            keypad_expanded: self.keypad_expanded,
            history_expanded: self.history_expanded,
            convert_expanded: self.convert_expanded,
            window_width: self.width,
            is_maximized: self.maximized,
        }
    }

    /// Takes the window's size as the user left it.
    pub fn set_size(&mut self, width: i32, height: i32)
        requires
            old(self).wf(),
        ensures
            *final(self) == (Window { width, height: height as i64, ..*old(self) }),
            final(self).wf(),
    {
        self.width = width;
        self.height = height as i64;
    }

    /// Takes whether the window is maximized.
    pub fn set_maximized(&mut self, maximized: bool)
        requires
            old(self).wf(),
        ensures
            *final(self) == (Window { maximized, ..*old(self) }),
            final(self).wf(),
    {
        self.maximized = maximized;
    }
}

} // verus!
