//! Configuration of a device, and the work mode as its events tell it.

use vstd::prelude::*;
use crate::kernel::event::{BoardEvent, EventView};
use crate::kernel::protocol_hid::WorkMode;
use crate::kernel::text;
use crate::runtime::hotplug::HotplugConfig;

verus! {

/// How a device is run.
#[derive(Debug, Clone, Copy, PartialEq, Eq, Structural)]
pub struct BoardConfig {
    pub hotplug: HotplugConfig,
}

impl Default for BoardConfig {
    fn default() -> (r: Self)
        ensures
            r == (BoardConfig {
                hotplug: HotplugConfig { retry_interval_ms: 2_000, check_interval_ms: 5_000 },
            }),
    {
        BoardConfig { hotplug: HotplugConfig::default() }
    }
}

/// The mode that an event names.
pub open spec fn mode_named(name: Seq<char>) -> Option<WorkMode> {
    if name == "CHAT"@ {
        Some(WorkMode::Chat)
    } else if name == "YOLO"@ {
        Some(WorkMode::Yolo)
    } else if name == "PLAN"@ {
        Some(WorkMode::Plan)
    } else {
        None
    }
}

/// The mode that an event names.
pub fn work_mode_from_event_name(name: &str) -> (r: Option<WorkMode>)
    ensures
        r == mode_named(name@),
{
    if text::text_eq(name, "CHAT") {
        Some(WorkMode::Chat)
    } else if text::text_eq(name, "YOLO") {
        Some(WorkMode::Yolo)
    } else if text::text_eq(name, "PLAN") {
        Some(WorkMode::Plan)
    } else {
        None
    }
}

/// A connection says nothing of the mode; its end makes the mode unknown.
pub fn update_mode_for_connection(mode: &mut Option<WorkMode>, connected: bool)
    ensures
        *final(mode) == (if connected {
            *old(mode)
        } else {
            None
        }),
{
    if !connected {
        *mode = None;
    }
}

/// The mode after an event.
pub open spec fn mode_after(mode: Option<WorkMode>, e: EventView) -> Option<WorkMode> {
    match e {
        EventView::Connection(c) => if c.connected {
            mode
        } else {
            None
        },
        EventView::ModeChange { mode: name, .. } => match mode_named(name) {
            Some(m) => Some(m),
            None => mode,
        },
        _ => mode,
    }
}

/// Keeps the work mode that the events told last.
pub struct ModeTracker {
    mode: Option<WorkMode>,
}

impl View for ModeTracker {
    type V = Option<WorkMode>;

    closed spec fn view(&self) -> Option<WorkMode> {
        self.mode
    }
}

impl ModeTracker {
    /// The mode is not known.
    pub fn new() -> (r: Self)
        ensures
            r@ is None,
    {
        ModeTracker { mode: None }
    }

    /// Takes in an event.
    pub fn on_event(&mut self, e: &BoardEvent)
        ensures
            final(self)@ == mode_after(old(self)@, e@),
    {
        match e {
            BoardEvent::Connection(c) => {
                update_mode_for_connection(&mut self.mode, c.connected);
            },
            BoardEvent::ModeChange(m) => {
                match work_mode_from_event_name(m.mode.as_str()) {
                    Some(mode) => {
                        self.mode = Some(mode);
                    },
                    None => {},
                }
            },
            _ => {},
        }
    }

    /// Forgets the mode.
    pub fn clear(&mut self)
        ensures
            final(self)@ is None,
    {
        self.mode = None;
    }

    /// The work mode, known only while a board is connected.
    pub fn current_work_mode(&self, connected: bool) -> (r: Option<WorkMode>)
        ensures
            r == (if connected {
                self@
            } else {
                None
            }),
    {
        if !connected {
            return None;
        }
        self.mode
    }
}

/// Every mode is recognised by the name under which events carry it.
pub proof fn law_mode_names_are_recognised(mode: WorkMode)
    ensures
        mode_named(mode.label()) == Some(mode),
{
    reveal_strlit("CHAT");
    reveal_strlit("YOLO");
    reveal_strlit("PLAN");
    assert("CHAT"@[0] == 'C');
    assert("YOLO"@[0] == 'Y');
    assert("PLAN"@[0] == 'P');
}

/// After the board is gone the mode is unknown, until an event names one again.
pub proof fn law_the_mode_does_not_outlive_the_connection(
    mode: Option<WorkMode>,
    gone: EventView,
    later: EventView,
)
    requires
        gone matches EventView::Connection(c) && !c.connected,
        !(later is ModeChange),
    ensures
        mode_after(mode_after(mode, gone), later) is None,
{
}

/// The mode is the one that was named last; a name that stands for no mode, and every event that
/// is neither a mode nor the end of the connection, leaves it.
pub proof fn law_the_last_named_mode_counts(
    mode: Option<WorkMode>,
    value: u8,
    source: crate::kernel::event::ModeSource,
    name: Seq<char>,
    e: EventView,
)
    ensures
        mode_after(mode, EventView::ModeChange { mode: "CHAT"@, mode_value: value, source })
            == Some(WorkMode::Chat),
        mode_after(mode, EventView::ModeChange { mode: "YOLO"@, mode_value: value, source })
            == Some(WorkMode::Yolo),
        mode_after(mode, EventView::ModeChange { mode: "PLAN"@, mode_value: value, source })
            == Some(WorkMode::Plan),
        name != "CHAT"@ && name != "YOLO"@ && name != "PLAN"@ ==> mode_after(
            mode,
            EventView::ModeChange { mode: name, mode_value: value, source },
        ) == mode,
        e !is ModeChange && e !is Connection ==> mode_after(mode, e) == mode,
        e matches EventView::Connection(c) ==> mode_after(mode, e) == (if c.connected {
            mode
        } else {
            None
        }),
{
    reveal_strlit("CHAT");
    reveal_strlit("YOLO");
    reveal_strlit("PLAN");
    assert("CHAT"@[0] == 'C');
    assert("YOLO"@[0] == 'Y');
    assert("PLAN"@[0] == 'P');
}

/// A name stands for a mode exactly when it is one of the three names.
pub proof fn law_there_are_three_mode_names(name: Seq<char>)
    ensures
        mode_named(name) == Some(WorkMode::Chat) <==> name == "CHAT"@,
        mode_named(name) == Some(WorkMode::Yolo) <==> name == "YOLO"@,
        mode_named(name) == Some(WorkMode::Plan) <==> name == "PLAN"@,
{
    reveal_strlit("CHAT");
    reveal_strlit("YOLO");
    reveal_strlit("PLAN");
    assert("CHAT"@[0] == 'C');
    assert("YOLO"@[0] == 'Y');
    assert("PLAN"@[0] == 'P');
}

} // verus!
