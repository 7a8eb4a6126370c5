//! Every setting wlRIX has, in one table.
//!
//! Order is the order of the file. That is what a generated example wants to print, and what a
//! panel wants to lay out; alphabetical would interleave `[focus]` and `[keyboard]`.
//!
//! **Each block below is a hand-kept copy of one component's serde structs.** The comment above
//! each names the file it was copied from, so the next person changing that file knows what
//! else to change.
//!
//! The table is written twice: once as [`table`], which is what every contract in the library
//! speaks of, and once as [`settings`], the value the code walks. `settings` is proved equal to
//! `table`, so the two cannot drift apart. One cannot be built from the other: spec code cannot
//! call executable code, executable code cannot run a spec function, and a constant both could
//! read would have to hold the table's struct literals, where constants here hold only
//! literals, names and operators.
//!
//! A decimal default or bound is written as a [`FloatLit`]: its IEEE-754 bits, which are what
//! values are compared against, and the number as it is written out.
use vstd::prelude::*;

use super::{spec_pidfile, Choice, FloatLit, Kind, Owner, Reload, Setting, Unit};
use crate::paths::{spec_namespace, File};
use crate::text::spec_join_with;

verus! {

/// `wlrix-idle`'s longest countdown, borrowed as the bound on the compositor's blank timer too.
pub const A_DAY: i64 = 86_400;

/// The number of settings in the table.
pub const SETTING_COUNT: usize = 63;

/// Every setting, in declaration order.
pub open spec fn table() -> Seq<Setting> {
    seq![
    Setting {
        key: "background.image",
        file: File::Background,
        path: &["image"],
        kind: Kind::Str { default: None },
        owner: Owner::Background,
        reload: Reload::Live,
        unit: Unit::Unitless,
        summary: "Wallpaper",
        description: "The picture to show on the desktop, as an absolute path. PNG, JPEG, WebP \
                      and the rest, plus the formats IRIX shipped its own backgrounds in -- SGI \
                      (.rgb, .bw) and XPM. Empty shows the color alone.",
    },
    Setting {
        key: "background.mode",
        file: File::Background,
        path: &["mode"],
        kind: Kind::Enum {
            default: Some("fill"),
            choices: &[
                Choice {
                    value: "fill",
                    label: "Fill the screen",
                },
                Choice {
                    value: "fit",
                    label: "Fit inside the screen",
                },
                Choice {
                    value: "stretch",
                    label: "Stretch to the screen",
                },
                Choice {
                    value: "center",
                    label: "Center at full size",
                },
                Choice {
                    value: "tile",
                    label: "Tile",
                },
                Choice {
                    value: "solid",
                    label: "Color only",
                },
            ],
        },
        owner: Owner::Background,
        reload: Reload::Live,
        unit: Unit::Unitless,
        summary: "How the wallpaper is fitted",
        description: "Fill covers the screen and crops what does not fit; fit shows the whole \
                      picture with the color in the bars; stretch distorts it to fit exactly; \
                      center and tile draw it at its own size. Solid ignores the picture.",
    },
    Setting {
        key: "background.color",
        file: File::Background,
        path: &["color"],
        kind: Kind::Str {
            default: Some("#555555"),
        },
        owner: Owner::Background,
        reload: Reload::Live,
        unit: Unit::Unitless,
        summary: "Desktop color",
        description: "The color behind the picture, as \"#rrggbb\". Seen in the letterbox bars \
                      under fit and center, through anything transparent, and over the whole \
                      screen when there is no picture or the mode is solid.",
    },
    Setting {
        key: "compositor.keyboard.rules",
        file: File::Compositor,
        path: &["keyboard", "rules"],
        kind: Kind::Str { default: None },
        owner: Owner::Compositor,
        reload: Reload::Live,
        unit: Unit::Unitless,
        summary: "xkb rules file",
        description: "Which xkb rules file to compile the keymap from. Empty picks the system \
                      default, which is what almost every installation wants.",
    },
    Setting {
        key: "compositor.keyboard.model",
        file: File::Compositor,
        path: &["keyboard", "model"],
        kind: Kind::Str { default: None },
        owner: Owner::Compositor,
        reload: Reload::Live,
        unit: Unit::Unitless,
        summary: "Keyboard model",
        description: "The physical keyboard, e.g. pc105, or jp106 for a Japanese 106-key board. \
                      Empty lets libxkbcommon decide.",
    },
    Setting {
        key: "compositor.keyboard.layout",
        file: File::Compositor,
        path: &["keyboard", "layout"],
        kind: Kind::Str { default: None },
        owner: Owner::Compositor,
        reload: Reload::Live,
        unit: Unit::Unitless,
        summary: "Keyboard layout",
        description: "A comma-separated list of layouts, e.g. \"jp\" or \"jp,us\". More than \
                      one enables the layout-cycle key. Empty uses the system default, usually \
                      US.",
    },
    Setting {
        key: "compositor.keyboard.variant",
        file: File::Compositor,
        path: &["keyboard", "variant"],
        kind: Kind::Str { default: None },
        owner: Owner::Compositor,
        reload: Reload::Live,
        unit: Unit::Unitless,
        summary: "Layout variant",
        description: "A comma-separated list of variants, one per layout, e.g. \"dvorak\". \
                      Empty means each layout's own default.",
    },
    Setting {
        key: "compositor.keyboard.options",
        file: File::Compositor,
        path: &["keyboard", "options"],
        kind: Kind::Str { default: None },
        owner: Owner::Compositor,
        reload: Reload::Live,
        unit: Unit::Unitless,
        summary: "xkb options",
        description: "Comma-separated xkb options, e.g. \"grp:alt_shift_toggle\" to switch \
                      layouts with Alt+Shift, or \"ctrl:nocaps\" for Caps Lock as Control.",
    },
    Setting {
        key: "compositor.keyboard.repeat_delay",
        file: File::Compositor,
        path: &["keyboard", "repeat_delay"],
        kind: Kind::Int {
            default: Some(200),
            min: 0,
            max: 10_000,
        },
        owner: Owner::Compositor,
        reload: Reload::Live,
        unit: Unit::Milliseconds,
        summary: "Repeat delay",
        description: "How long a key is held before it starts repeating.",
    },
    Setting {
        key: "compositor.keyboard.repeat_rate",
        file: File::Compositor,
        path: &["keyboard", "repeat_rate"],
        kind: Kind::Int {
            default: Some(25),
            min: 0,
            max: 255,
        },
        owner: Owner::Compositor,
        reload: Reload::Live,
        unit: Unit::Hertz,
        summary: "Repeat rate",
        description: "Repeats per second once repetition starts. Zero switches key repeat off \
                      altogether, which is what the Wayland protocol reads a rate of 0 as.",
    },
    Setting {
        key: "compositor.focus.policy",
        file: File::Compositor,
        path: &["focus", "policy"],
        kind: Kind::Enum {
            default: Some("click"),
            choices: &[
                Choice {
                    value: "click",
                    label: "Click to focus",
                },
                Choice {
                    value: "pointer",
                    label: "Focus follows pointer",
                },
            ],
        },
        owner: Owner::Compositor,
        reload: Reload::Live,
        unit: Unit::Unitless,
        summary: "Focus policy",
        description: "How a window comes to have the keyboard. Click focuses and raises at the \
                      same time; pointer gives the keyboard to whatever is under the pointer, \
                      decorations included, while a click still raises.",
    },
    Setting {
        key: "compositor.focus.raise_on_click",
        file: File::Compositor,
        path: &["focus", "raise_on_click"],
        kind: Kind::Bool {
            default: Some(true),
        },
        owner: Owner::Compositor,
        reload: Reload::Live,
        unit: Unit::Unitless,
        summary: "Clicking a window raises it",
        description: "On, clicking anywhere in a window brings it to the front. Off separates \
                      focusing from restacking: the click still gives the window the keyboard, \
                      but the stacking order only changes deliberately -- through the window's \
                      4Dwm frame, or Raise and Lower in its window menu. Frame clicks raise \
                      either way.",
    },
    Setting {
        key: "compositor.windows.opaque_move",
        file: File::Compositor,
        path: &["windows", "opaque_move"],
        kind: Kind::Bool {
            default: Some(true),
        },
        owner: Owner::Compositor,
        reload: Reload::Live,
        unit: Unit::Unitless,
        summary: "Show window contents while moving",
        description: "On, a window is dragged as itself. Off gives IRIX's other mode: the \
                      window stays put and a red wireframe follows the pointer, with the move \
                      applied on release.",
    },
    Setting {
        key: "compositor.windows.opaque_resize",
        file: File::Compositor,
        path: &["windows", "opaque_resize"],
        kind: Kind::Bool {
            default: Some(true),
        },
        owner: Owner::Compositor,
        reload: Reload::Live,
        unit: Unit::Unitless,
        summary: "Show window contents while resizing",
        description: "Off rubber-bands the frame and configures the client once, on release, \
                      rather than on every motion event -- which is the cheaper of the two by \
                      a wide margin on a large window.",
    },
    Setting {
        key: "compositor.cursor.theme",
        file: File::Compositor,
        path: &["cursor", "theme"],
        kind: Kind::Str { default: None },
        owner: Owner::Compositor,
        reload: Reload::Live,
        unit: Unit::Unitless,
        summary: "Cursor theme",
        description: "An XCursor theme name -- a directory under share/icons on an XDG data \
                      directory, or under ~/.icons. wlRIX ships sgi, the IRIX pointer set. A \
                      theme that is not installed leaves a plain built-in arrow.",
    },
    Setting {
        key: "compositor.cursor.size",
        file: File::Compositor,
        path: &["cursor", "size"],
        kind: Kind::Int {
            default: None,
            min: 8,
            max: 512,
        },
        owner: Owner::Compositor,
        reload: Reload::Live,
        unit: Unit::Pixels,
        summary: "Cursor size",
        description: "Nominal, not literal: a theme carries whichever sizes its author drew and \
                      the nearest is used. sgi has 32 and nothing else, which is what the system \
                      default config asks for -- anything else would get the same images and \
                      tell every client to resample them.",
    },
    Setting {
        key: "compositor.idle.blank_after_secs",
        file: File::Compositor,
        path: &["idle", "blank_after_secs"],
        kind: Kind::Int {
            default: None,
            min: 0,
            max: A_DAY,
        },
        owner: Owner::Compositor,
        reload: Reload::Live,
        unit: Unit::Seconds,
        summary: "Blank the screen after (deprecated)",
        description: "Deprecated: wlrix-idle owns idle policy for a wlRIX session and is \
                      started as part of it, so this should normally be left unset. Two idle \
                      timers on one screen fail in a way that is hard to diagnose -- a blank a \
                      client asked for is left alone by input, so once this one has fired \
                      against wlrix-idle's back, nothing switches the screens on again.",
    },
    Setting {
        key: "compositor.appearance.palette",
        file: File::Compositor,
        path: &["appearance", "palette"],
        kind: Kind::Str { default: None },
        owner: Owner::Compositor,
        reload: Reload::Live,
        unit: Unit::Unitless,
        summary: "Color scheme",
        description: "A scheme id from wlrix-ui. Empty or unrecognized means the default, with \
                      a line in the log for the latter -- a mistyped scheme name must not leave \
                      somebody with no session at all. Normally written through the \
                      `appearance.palette` group rather than on its own, so the chrome and the \
                      rest of the desktop move together.",
    },

    Setting {
        key: "desktop.snap_to_grid",
        file: File::Desktop,
        path: &["snap_to_grid"],
        kind: Kind::Bool {
            default: Some(false),
        },
        owner: Owner::Desktop,
        reload: Reload::Live,
        unit: Unit::Unitless,
        summary: "Snap icons to a grid",
        description: "The starting value only. The user can flip this at runtime and the state \
                      file remembers what they chose, which then wins over this.",
    },
    Setting {
        key: "desktop.output",
        file: File::Desktop,
        path: &["output"],
        kind: Kind::Str { default: None },
        owner: Owner::Desktop,
        reload: Reload::Restart,
        unit: Unit::Unitless,
        summary: "Monitor for desktop icons",
        description: "Which monitor the icons appear on, by connector name (DP-1, HDMI-A-1, \
                      Virtual-1). Empty lets wlrix-desktop work it out, which means the \
                      leftmost.",
    },
    Setting {
        key: "desktop.open",
        file: File::Desktop,
        path: &["open"],
        kind: Kind::StrList { default: &[] },
        owner: Owner::Desktop,
        reload: Reload::Live,
        unit: Unit::Unitless,
        summary: "Command that opens a file",
        description: "The command and its leading arguments; the file or URL is appended. \
                      Empty means xdg-open, which consults the user's MIME associations.",
    },
    Setting {
        key: "desktop.terminal",
        file: File::Desktop,
        path: &["terminal"],
        kind: Kind::StrList { default: &[] },
        owner: Owner::Desktop,
        reload: Reload::Live,
        unit: Unit::Unitless,
        summary: "Terminal for Terminal=true launchers",
        description: "The command and its leading arguments that wrap a console program; the \
                      program is appended. Empty lets wlrix-desktop work one out.",
    },
    Setting {
        key: "desktop.metrics.icon",
        file: File::Desktop,
        path: &["metrics", "icon"],
        kind: Kind::Int {
            default: Some(64),
            min: 8,
            max: 512,
        },
        owner: Owner::Desktop,
        reload: Reload::Live,
        unit: Unit::Pixels,
        summary: "Icon size",
        description: "The icon artwork, square. A cell is never smaller than its icon, so \
                      raising this raises the cell with it.",
    },
    Setting {
        key: "desktop.metrics.cell_width",
        file: File::Desktop,
        path: &["metrics", "cell_width"],
        kind: Kind::Int {
            default: Some(96),
            min: 8,
            max: 1024,
        },
        owner: Owner::Desktop,
        reload: Reload::Live,
        unit: Unit::Pixels,
        summary: "Cell width",
        description: "One cell holds the icon and its label. Too narrow and long filenames are \
                      cut.",
    },
    Setting {
        key: "desktop.metrics.cell_height",
        file: File::Desktop,
        path: &["metrics", "cell_height"],
        kind: Kind::Int {
            default: Some(104),
            min: 8,
            max: 1024,
        },
        owner: Owner::Desktop,
        reload: Reload::Live,
        unit: Unit::Pixels,
        summary: "Cell height",
        description: "The default is the icon, a small gap, and two lines of label with a \
                      little slack. Shave a few pixels off and the second label line silently \
                      stops fitting, which shows up as every long filename being cut after one \
                      line.",
    },
    Setting {
        key: "desktop.metrics.gap",
        file: File::Desktop,
        path: &["metrics", "gap"],
        kind: Kind::Int {
            default: Some(8),
            min: 0,
            max: 256,
        },
        owner: Owner::Desktop,
        reload: Reload::Live,
        unit: Unit::Pixels,
        summary: "Gap between cells",
        description: "Space between one cell and the next, in both directions.",
    },
    Setting {
        key: "desktop.metrics.margin",
        file: File::Desktop,
        path: &["metrics", "margin"],
        kind: Kind::Int {
            default: Some(12),
            min: 0,
            max: 512,
        },
        owner: Owner::Desktop,
        reload: Reload::Live,
        unit: Unit::Pixels,
        summary: "Margin at the screen edge",
        description: "Space between the outermost cells and the edge of the monitor.",
    },
    Setting {
        key: "desktop.appearance.palette",
        file: File::Desktop,
        path: &["appearance", "palette"],
        kind: Kind::Str { default: None },
        owner: Owner::Desktop,
        reload: Reload::Live,
        unit: Unit::Unitless,
        summary: "Color scheme",
        description: "A scheme id from wlrix-ui. Empty or unrecognized means the default, with \
                      a line in the log for the latter -- a mistyped scheme name must not leave \
                      the desktop unpainted.",
    },
    Setting {
        key: "desktop.appearance.icon_theme",
        file: File::Desktop,
        path: &["appearance", "icon_theme"],
        kind: Kind::Str {
            default: Some("Adwaita"),
        },
        owner: Owner::Desktop,
        reload: Reload::Live,
        unit: Unit::Unitless,
        summary: "Icon theme an Icon= name is looked up in",
        description: "Searched before hicolor and /usr/share/pixmaps, which between them have \
                      almost nothing a .desktop file names -- a launcher whose icon is not found \
                      is drawn as a bare magic carpet with no symbol on it. Empty means no named \
                      theme.",
    },
    Setting {
        key: "idle.lock.command",
        file: File::Idle,
        path: &["lock", "command"],
        kind: Kind::Str { default: None },
        owner: Owner::Idle,
        reload: Reload::Live,
        unit: Unit::Unitless,
        summary: "Screen locker",
        description: "The locker to run, e.g. \"swaylock -f -c 000000\". Nothing by default: \
                      which locker a session uses is a choice, and guessing at one that is not \
                      installed would turn every lock into a silent no-op.",
    },
    Setting {
        key: "idle.before_sleep.lock",
        file: File::Idle,
        path: &["before_sleep", "lock"],
        kind: Kind::Bool {
            default: Some(false),
        },
        owner: Owner::Idle,
        reload: Reload::Live,
        unit: Unit::Unitless,
        summary: "Lock before suspending",
        description: "Run the locker while logind holds the machine back from suspending, so \
                      the screen is already locked when it wakes.",
    },
    Setting {
        key: "idle.before_sleep.blank",
        file: File::Idle,
        path: &["before_sleep", "blank"],
        kind: Kind::Bool {
            default: Some(false),
        },
        owner: Owner::Idle,
        reload: Reload::Live,
        unit: Unit::Unitless,
        summary: "Blank before suspending",
        description: "Switch the monitors off before the machine suspends.",
    },
    Setting {
        key: "idle.before_sleep.command",
        file: File::Idle,
        path: &["before_sleep", "command"],
        kind: Kind::Str { default: None },
        owner: Owner::Idle,
        reload: Reload::Live,
        unit: Unit::Unitless,
        summary: "Command to run before suspending",
        description: "Run through sh -c, so quoting and pipes work. It has to finish inside \
                      the delay below.",
    },
    Setting {
        key: "idle.before_sleep.timeout_secs",
        file: File::Idle,
        path: &["before_sleep", "timeout_secs"],
        kind: Kind::Int {
            default: Some(4),
            min: 1,
            max: 20,
        },
        owner: Owner::Idle,
        reload: Reload::Live,
        unit: Unit::Seconds,
        summary: "How long to hold suspend back",
        description: "logind's InhibitDelayMaxSec is five seconds by default; past that it \
                      suspends regardless, so a longer wait here only means losing the race \
                      with the lock half-run.",
    },
    Setting {
        key: "idle.gamepad.enable",
        file: File::Idle,
        path: &["gamepad", "enable"],
        kind: Kind::Bool {
            default: Some(true),
        },
        owner: Owner::Idle,
        reload: Reload::Live,
        unit: Unit::Unitless,
        summary: "Count controller input as activity",
        description: "libinput classifies a gamepad as a joystick and drops it, so the \
                      compositor never sees a stick move and its idle timer never resets. \
                      wlrix-idle reads controllers straight from evdev to fix exactly that.",
    },
    Setting {
        key: "idle.gamepad.deadzone",
        file: File::Idle,
        path: &["gamepad", "deadzone"],
        kind: Kind::Float {
            default: Some(FloatLit { bits: 0x3FD0000000000000, text: "0.25" }),
            min: FloatLit { bits: 0x3F947AE147AE147B, text: "0.02" },
            max: FloatLit { bits: 0x3FECCCCCCCCCCCCD, text: "0.9" },
        },
        owner: Owner::Idle,
        reload: Reload::Live,
        unit: Unit::Unitless,
        summary: "Stick deadzone",
        description: "How far a stick has to move before it counts, as a fraction of its \
                      travel from rest to the end of the axis. Triggers and d-pads rest at one \
                      end, so every press clears it.",
    },
    Setting {
        key: "idle.gamepad.min_interval_ms",
        file: File::Idle,
        path: &["gamepad", "min_interval_ms"],
        kind: Kind::Int {
            default: Some(1000),
            min: 0,
            max: 60_000,
        },
        owner: Owner::Idle,
        reload: Reload::Live,
        unit: Unit::Milliseconds,
        summary: "Least time between reports",
        description: "One device cannot report activity more often than this. A stick held \
                      over would otherwise wake the idle timer thousands of times a second.",
    },
    Setting {
        key: "idle.gamepad.allow",
        file: File::Idle,
        path: &["gamepad", "allow"],
        kind: Kind::StrList { default: &[] },
        owner: Owner::Idle,
        reload: Reload::Live,
        unit: Unit::Unitless,
        summary: "Only these controllers",
        description: "Case-insensitive substrings of the device name. Empty means every \
                      controller.",
    },
    Setting {
        key: "idle.gamepad.deny",
        file: File::Idle,
        path: &["gamepad", "deny"],
        kind: Kind::StrList { default: &[] },
        owner: Owner::Idle,
        reload: Reload::Live,
        unit: Unit::Unitless,
        summary: "Never these controllers",
        description: "Case-insensitive substrings of the device name, for a device that \
                      reports movement on its own.",
    },
    Setting {
        key: "idle.gamepad.devices",
        file: File::Idle,
        path: &["gamepad", "devices"],
        kind: Kind::StrList { default: &[] },
        owner: Owner::Idle,
        reload: Reload::Live,
        unit: Unit::Unitless,
        summary: "Controllers to use regardless",
        description: "Paths under /dev/input to treat as controllers whatever the detection \
                      thinks, for the one nobody's heuristic gets right.",
    },
    Setting {
        key: "idle.dbus.screensaver",
        file: File::Idle,
        path: &["dbus", "screensaver"],
        kind: Kind::Bool {
            default: Some(true),
        },
        owner: Owner::Idle,
        reload: Reload::Restart,
        unit: Unit::Unitless,
        summary: "Serve org.freedesktop.ScreenSaver",
        description: "How Firefox, mpv and Steam say \"not now\" while something is playing. \
                      Turning it off means the screen blanks during a film.",
    },
    Setting {
        key: "idle.dbus.power_management",
        file: File::Idle,
        path: &["dbus", "power_management"],
        kind: Kind::Bool {
            default: Some(true),
        },
        owner: Owner::Idle,
        reload: Reload::Restart,
        unit: Unit::Unitless,
        summary: "Serve org.freedesktop.PowerManagement.Inhibit",
        description: "The older inhibit interface, which some applications still use instead \
                      of the ScreenSaver one.",
    },
    Setting {
        key: "idle.dbus.logind",
        file: File::Idle,
        path: &["dbus", "logind"],
        kind: Kind::Bool {
            default: Some(true),
        },
        owner: Owner::Idle,
        reload: Reload::Restart,
        unit: Unit::Unitless,
        summary: "Take logind's delay inhibitor",
        description: "What makes the before-suspend actions above possible at all. With this \
                      off, the machine suspends without waiting for them.",
    },
    Setting {
        key: "idle.dbus.replace",
        file: File::Idle,
        path: &["dbus", "replace"],
        kind: Kind::Bool {
            default: Some(false),
        },
        owner: Owner::Idle,
        reload: Reload::Restart,
        unit: Unit::Unitless,
        summary: "Take the bus names from whoever holds them",
        description: "For running wlrix-idle inside another desktop, which already owns them. \
                      Taking a live KDE session's inhibit handling away breaks it, so this is \
                      off unless asked for.",
    },
    Setting {
        key: "portal.preview.tick_ms",
        file: File::Portal,
        path: &["preview", "tick_ms"],
        kind: Kind::Int {
            default: Some(100),
            min: 1,
            max: 60_000,
        },
        owner: Owner::Portal,
        reload: Reload::Never,
        unit: Unit::Milliseconds,
        summary: "Preview refresh interval",
        description: "How often one source is captured for the screen-share picker. Not the \
                      refresh rate of a tile: sources take turns, so with ten of them the \
                      default refreshes each about once a second. Lower it to make the grid \
                      livelier and the readback more expensive.",
    },
    Setting {
        key: "screenshot.save.dir",
        file: File::Screenshot,
        path: &["save", "dir"],
        kind: Kind::Str { default: None },
        owner: Owner::Screenshot,
        reload: Reload::Never,
        unit: Unit::Unitless,
        summary: "Where screenshots are saved",
        description: "Empty means the XDG pictures directory plus Screenshots. A leading ~/ is \
                      expanded; the directory is created when the first shot is saved.",
    },
    Setting {
        key: "screenshot.save.filename",
        file: File::Screenshot,
        path: &["save", "filename"],
        kind: Kind::Str {
            default: Some("Screenshot_%Y-%m-%d_%H-%M-%S"),
        },
        owner: Owner::Screenshot,
        reload: Reload::Never,
        unit: Unit::Unitless,
        summary: "Filename template",
        description: "A strftime template, without the extension. Every conversion strftime(3) \
                      documents works. A second shot in the same second gets -2 appended \
                      rather than overwriting the first.",
    },
    Setting {
        key: "screenshot.capture.cursor",
        file: File::Screenshot,
        path: &["capture", "cursor"],
        kind: Kind::Bool {
            default: Some(false),
        },
        owner: Owner::Screenshot,
        reload: Reload::Never,
        unit: Unit::Unitless,
        summary: "Draw the pointer into the shot",
        description: "Off by default: the pointer is usually somewhere incidental when the key \
                      is pressed, and a shot of a menu is spoiled rather than explained by an \
                      arrow in the corner of it.",
    },
    Setting {
        key: "screenshot.appearance.palette",
        file: File::Screenshot,
        path: &["appearance", "palette"],
        kind: Kind::Str { default: None },
        owner: Owner::Screenshot,
        reload: Reload::Never,
        unit: Unit::Unitless,
        summary: "Color scheme",
        description: "A scheme id from wlrix-ui. Empty or unrecognized means the default, with \
                      a line on stderr for the latter.",
    },
    Setting {
        key: "screenshot.appearance.dim",
        file: File::Screenshot,
        path: &["appearance", "dim"],
        kind: Kind::Float {
            default: Some(FloatLit { bits: 0x3FE199999999999A, text: "0.55" }),
            min: FloatLit { bits: 0x0000000000000000, text: "0" },
            max: FloatLit { bits: 0x3FF0000000000000, text: "1" },
        },
        owner: Owner::Screenshot,
        reload: Reload::Never,
        unit: Unit::Unitless,
        summary: "How far the unselected area is darkened",
        description: "0.0 leaves it alone, 1.0 blacks it out. The default is dark enough that \
                      the selection reads as the subject and light enough that what is outside \
                      it is still recognizable -- which matters, because the point of adjusting \
                      a selection is seeing what you are about to leave out.",
    },
    Setting {
        key: "session.compositor",
        file: File::Session,
        path: &["compositor"],
        kind: Kind::Str { default: None },
        owner: Owner::Nobody,
        reload: Reload::NextLogin,
        unit: Unit::Unitless,
        summary: "Compositor to run",
        description: "Empty leaves the built-in default, wlrix-compositor. Changing this is \
                      how you run a patched build for one session without touching the \
                      installed one.",
    },
    Setting {
        key: "tray.output",
        file: File::Tray,
        path: &["output"],
        kind: Kind::Str { default: None },
        owner: Owner::Tray,
        reload: Reload::Live,
        unit: Unit::Unitless,
        summary: "Which monitor the tray is on",
        description: "A connector name (DP-1, HDMI-A-1). Empty means the leftmost. A name that \
                      is not plugged in falls back to the leftmost with a line on stderr.",
    },
    Setting {
        key: "tray.anchor",
        file: File::Tray,
        path: &["anchor"],
        kind: Kind::Enum {
            default: Some("bottom-left"),
            choices: &[
                Choice {
                    value: "bottom-left",
                    label: "Bottom left",
                },
                Choice {
                    value: "bottom-right",
                    label: "Bottom right",
                },
                Choice {
                    value: "top-left",
                    label: "Top left",
                },
                Choice {
                    value: "top-right",
                    label: "Top right",
                },
            ],
        },
        owner: Owner::Tray,
        reload: Reload::Live,
        unit: Unit::Unitless,
        summary: "Which corner the tray docks in",
        description: "IRIX put it bottom left, which is the default. The strip fills away from \
                      the corner and wraps inward, so it grows onto the desktop rather than \
                      off the screen.",
    },
    Setting {
        key: "tray.orientation",
        file: File::Tray,
        path: &["orientation"],
        kind: Kind::Enum {
            default: Some("horizontal"),
            choices: &[
                Choice {
                    value: "horizontal",
                    label: "Along the screen edge",
                },
                Choice {
                    value: "vertical",
                    label: "Inward from the edge",
                },
            ],
        },
        owner: Owner::Tray,
        reload: Reload::Live,
        unit: Unit::Unitless,
        summary: "Which way the strip runs",
        description: "Horizontal runs along the screen edge and wraps to a second row inward; \
                      vertical runs inward and wraps to a second column sideways.",
    },
    Setting {
        key: "tray.show_passive",
        file: File::Tray,
        path: &["show_passive"],
        kind: Kind::Bool {
            default: Some(false),
        },
        owner: Owner::Tray,
        reload: Reload::Live,
        unit: Unit::Unitless,
        summary: "Show items that are not asking for attention",
        description: "The specification lets a tray hide an item whose Status is Passive, and \
                      applications rely on it -- several park an item there permanently. On, \
                      the strip becomes a list of everything that has ever started.",
    },
    Setting {
        key: "tray.hide_when_empty",
        file: File::Tray,
        path: &["hide_when_empty"],
        kind: Kind::Bool {
            default: Some(true),
        },
        owner: Owner::Tray,
        reload: Reload::Live,
        unit: Unit::Unitless,
        summary: "Disappear when there is nothing to show",
        description: "Off leaves an empty beveled well on the desktop, which makes the tray \
                      discoverable -- there is somewhere for an icon to appear.",
    },
    Setting {
        key: "tray.appearance.palette",
        file: File::Tray,
        path: &["appearance", "palette"],
        kind: Kind::Str { default: None },
        owner: Owner::Tray,
        reload: Reload::Live,
        unit: Unit::Unitless,
        summary: "Color scheme",
        description: "A scheme id from wlrix-ui. Empty or unrecognized means the default, with \
                      a line on stderr for the latter.",
    },
    Setting {
        key: "tray.appearance.icon_theme",
        file: File::Tray,
        path: &["appearance", "icon_theme"],
        kind: Kind::Str {
            default: Some("Adwaita"),
        },
        owner: Owner::Tray,
        reload: Reload::Live,
        unit: Unit::Unitless,
        summary: "Icon theme an item's IconName is looked up in",
        description: "Searched before hicolor and /usr/share/pixmaps, which between them have \
                      almost nothing a tray wants -- fcitx5's input-keyboard-symbolic is in \
                      every other theme and neither of those. Empty means no named theme.",
    },
    Setting {
        key: "tray.metrics.icon",
        file: File::Tray,
        path: &["metrics", "icon"],
        kind: Kind::Int {
            default: Some(22),
            min: 8,
            max: 128,
        },
        owner: Owner::Tray,
        reload: Reload::Live,
        unit: Unit::Pixels,
        summary: "Icon size",
        description: "22 is what almost every IconPixmap on the bus arrives at, so it is the \
                      one size that needs no scaling.",
    },
    Setting {
        key: "tray.metrics.cell",
        file: File::Tray,
        path: &["metrics", "cell"],
        kind: Kind::Int {
            default: Some(28),
            min: 8,
            max: 160,
        },
        owner: Owner::Tray,
        reload: Reload::Live,
        unit: Unit::Pixels,
        summary: "Cell size",
        description: "One cell: the icon plus the room its bevel and highlight need. Floored at \
                      the icon size rather than refused.",
    },
    Setting {
        key: "tray.metrics.gap",
        file: File::Tray,
        path: &["metrics", "gap"],
        kind: Kind::Int {
            default: Some(2),
            min: 0,
            max: 32,
        },
        owner: Owner::Tray,
        reload: Reload::Live,
        unit: Unit::Pixels,
        summary: "Gap between cells",
        description: "Zero puts the cells edge to edge, which is how a row of them reads as one \
                      strip rather than several buttons.",
    },
    Setting {
        key: "tray.metrics.margin",
        file: File::Tray,
        path: &["metrics", "margin"],
        kind: Kind::Int {
            default: Some(8),
            min: 0,
            max: 200,
        },
        owner: Owner::Tray,
        reload: Reload::Live,
        unit: Unit::Pixels,
        summary: "Distance from the screen edges",
        description: "How far the strip sits from the two edges it is anchored to.",
    },
    Setting {
        key: "tray.metrics.wrap_at",
        file: File::Tray,
        path: &["metrics", "wrap_at"],
        kind: Kind::Int {
            default: Some(8),
            min: 1,
            max: 64,
        },
        owner: Owner::Tray,
        reload: Reload::Live,
        unit: Unit::Unitless,
        summary: "Cells per run before the strip wraps",
        description: "Named for what it does rather than max_columns: in vertical orientation \
                      the run is a column and the wrap makes a new one sideways.",
    },
]
}

/// Every setting, in declaration order: the value of [`table`].
pub fn settings() -> (r: Vec<Setting>)
    ensures
        r@ == table(),
        r@.len() == SETTING_COUNT,
{
    let r = vec![
    // ---------------------------------------------------------------------------------------
    // background.toml -- wlrix-bg/src/config.rs
    //
    // All `Reload::Live`: `wlrix-bg` re-reads the file on SIGHUP, drops its decode cache and
    // repaints every output. Changing a wallpaper is a buffer swap, so there is nothing here
    // that needs a restart.
    //
    // `[[output]]` -- the per-monitor overrides -- is absent for the same reason as the
    // compositor's and `wlrix-idle`'s `[[timeout]]`: it is a keyed collection, not a scalar
    // leaf. An override is three fields that only mean anything together with the connector
    // name they hang off.
    // ---------------------------------------------------------------------------------------
    Setting {
        key: "background.image",
        file: File::Background,
        path: &["image"],
        // No default, and absent is not the same as "": absent means the plain color, which is
        // what a fresh install shows, and a UI must be able to offer "no picture" as a choice
        // rather than as an empty text field.
        kind: Kind::Str { default: None },
        owner: Owner::Background,
        reload: Reload::Live,
        unit: Unit::Unitless,
        summary: "Wallpaper",
        description: "The picture to show on the desktop, as an absolute path. PNG, JPEG, WebP \
                      and the rest, plus the formats IRIX shipped its own backgrounds in -- SGI \
                      (.rgb, .bw) and XPM. Empty shows the color alone.",
    },
    Setting {
        key: "background.mode",
        file: File::Background,
        path: &["mode"],
        kind: Kind::Enum {
            // Exactly what `#[serde(rename_all = "lowercase")]` on wlrix-bg's `Mode` accepts.
            // Its own tests assert that "tiled", "center", "zoom" and every capitalized form are
            // rejected, so offering one here would cost the user their whole file.
            default: Some("fill"),
            choices: &[
                Choice {
                    value: "fill",
                    label: "Fill the screen",
                },
                Choice {
                    value: "fit",
                    label: "Fit inside the screen",
                },
                Choice {
                    value: "stretch",
                    label: "Stretch to the screen",
                },
                Choice {
                    value: "center",
                    label: "Center at full size",
                },
                Choice {
                    value: "tile",
                    label: "Tile",
                },
                Choice {
                    value: "solid",
                    label: "Color only",
                },
            ],
        },
        owner: Owner::Background,
        reload: Reload::Live,
        unit: Unit::Unitless,
        summary: "How the wallpaper is fitted",
        description: "Fill covers the screen and crops what does not fit; fit shows the whole \
                      picture with the color in the bars; stretch distorts it to fit exactly; \
                      center and tile draw it at its own size. Solid ignores the picture.",
    },
    Setting {
        key: "background.color",
        file: File::Background,
        path: &["color"],
        // `#555555` is the palette's DESKTOP role -- the gray IRIX's desktop is under everything
        // -- and wlrix-bg's own `DEFAULT_COLOR`.
        kind: Kind::Str {
            default: Some("#555555"),
        },
        owner: Owner::Background,
        reload: Reload::Live,
        unit: Unit::Unitless,
        summary: "Desktop color",
        description: "The color behind the picture, as \"#rrggbb\". Seen in the letterbox bars \
                      under fit and center, through anything transparent, and over the whole \
                      screen when there is no picture or the mode is solid.",
    },
    // ---------------------------------------------------------------------------------------
    // compositor.toml -- wlrix-compositor/src/config.rs
    //
    // Everything here is `Reload::Live`: `State::reload_config` re-applies `[keyboard]` through
    // `set_xkb_config`/`change_repeat_info`, reloads the cursor theme when `[cursor]` changed and
    // re-arms the blank timer, and `[focus]`/`[windows]` are read at the point of use, so a
    // reloaded config is in force for the next click. `[[output]]` is the exception and is absent
    // from this table -- see below.
    //
    // `[cursor]` is live for the *compositor's* pointer only. Clients read XCURSOR_THEME from
    // their own environment, fixed when they were started, so a running app keeps the theme it
    // launched with however many reloads happen; the change is whole at the next login.
    // ---------------------------------------------------------------------------------------
    Setting {
        key: "compositor.keyboard.rules",
        file: File::Compositor,
        path: &["keyboard", "rules"],
        kind: Kind::Str { default: None },
        owner: Owner::Compositor,
        reload: Reload::Live,
        unit: Unit::Unitless,
        summary: "xkb rules file",
        description: "Which xkb rules file to compile the keymap from. Empty picks the system \
                      default, which is what almost every installation wants.",
    },
    Setting {
        key: "compositor.keyboard.model",
        file: File::Compositor,
        path: &["keyboard", "model"],
        kind: Kind::Str { default: None },
        owner: Owner::Compositor,
        reload: Reload::Live,
        unit: Unit::Unitless,
        summary: "Keyboard model",
        description: "The physical keyboard, e.g. pc105, or jp106 for a Japanese 106-key board. \
                      Empty lets libxkbcommon decide.",
    },
    Setting {
        key: "compositor.keyboard.layout",
        file: File::Compositor,
        path: &["keyboard", "layout"],
        kind: Kind::Str { default: None },
        owner: Owner::Compositor,
        reload: Reload::Live,
        unit: Unit::Unitless,
        summary: "Keyboard layout",
        description: "A comma-separated list of layouts, e.g. \"jp\" or \"jp,us\". More than \
                      one enables the layout-cycle key. Empty uses the system default, usually \
                      US.",
    },
    Setting {
        key: "compositor.keyboard.variant",
        file: File::Compositor,
        path: &["keyboard", "variant"],
        kind: Kind::Str { default: None },
        owner: Owner::Compositor,
        reload: Reload::Live,
        unit: Unit::Unitless,
        summary: "Layout variant",
        description: "A comma-separated list of variants, one per layout, e.g. \"dvorak\". \
                      Empty means each layout's own default.",
    },
    Setting {
        key: "compositor.keyboard.options",
        file: File::Compositor,
        path: &["keyboard", "options"],
        kind: Kind::Str { default: None },
        owner: Owner::Compositor,
        reload: Reload::Live,
        unit: Unit::Unitless,
        summary: "xkb options",
        description: "Comma-separated xkb options, e.g. \"grp:alt_shift_toggle\" to switch \
                      layouts with Alt+Shift, or \"ctrl:nocaps\" for Caps Lock as Control.",
    },
    Setting {
        key: "compositor.keyboard.repeat_delay",
        file: File::Compositor,
        path: &["keyboard", "repeat_delay"],
        kind: Kind::Int {
            default: Some(200),
            min: 0,
            max: 10_000,
        },
        owner: Owner::Compositor,
        reload: Reload::Live,
        unit: Unit::Milliseconds,
        summary: "Repeat delay",
        description: "How long a key is held before it starts repeating.",
    },
    Setting {
        key: "compositor.keyboard.repeat_rate",
        file: File::Compositor,
        path: &["keyboard", "repeat_rate"],
        kind: Kind::Int {
            default: Some(25),
            min: 0,
            max: 255,
        },
        owner: Owner::Compositor,
        reload: Reload::Live,
        unit: Unit::Hertz,
        summary: "Repeat rate",
        description: "Repeats per second once repetition starts. Zero switches key repeat off \
                      altogether, which is what the Wayland protocol reads a rate of 0 as.",
    },
    Setting {
        key: "compositor.focus.policy",
        file: File::Compositor,
        path: &["focus", "policy"],
        kind: Kind::Enum {
            default: Some("click"),
            // Exactly what `#[serde(rename_all = "lowercase")]` on the compositor's
            // `FocusPolicy` accepts. Its own tests assert that "explicit" -- Motif's name for
            // the same thing -- and "Pointer" are rejected, so offering either here would be
            // offering a value that costs the user their file.
            choices: &[
                Choice {
                    value: "click",
                    label: "Click to focus",
                },
                Choice {
                    value: "pointer",
                    label: "Focus follows pointer",
                },
            ],
        },
        owner: Owner::Compositor,
        reload: Reload::Live,
        unit: Unit::Unitless,
        summary: "Focus policy",
        description: "How a window comes to have the keyboard. Click focuses and raises at the \
                      same time; pointer gives the keyboard to whatever is under the pointer, \
                      decorations included, while a click still raises.",
    },
    Setting {
        key: "compositor.focus.raise_on_click",
        file: File::Compositor,
        path: &["focus", "raise_on_click"],
        // The compositor writes `FocusConfig::default` out by hand precisely so that this stays
        // true for a config with no `[focus]` section at all; a default of `false` here would
        // describe a compositor that does not exist.
        kind: Kind::Bool {
            default: Some(true),
        },
        owner: Owner::Compositor,
        reload: Reload::Live,
        unit: Unit::Unitless,
        summary: "Clicking a window raises it",
        description: "On, clicking anywhere in a window brings it to the front. Off separates \
                      focusing from restacking: the click still gives the window the keyboard, \
                      but the stacking order only changes deliberately -- through the window's \
                      4Dwm frame, or Raise and Lower in its window menu. Frame clicks raise \
                      either way.",
    },
    Setting {
        key: "compositor.windows.opaque_move",
        file: File::Compositor,
        path: &["windows", "opaque_move"],
        kind: Kind::Bool {
            default: Some(true),
        },
        owner: Owner::Compositor,
        reload: Reload::Live,
        unit: Unit::Unitless,
        summary: "Show window contents while moving",
        description: "On, a window is dragged as itself. Off gives IRIX's other mode: the \
                      window stays put and a red wireframe follows the pointer, with the move \
                      applied on release.",
    },
    Setting {
        key: "compositor.windows.opaque_resize",
        file: File::Compositor,
        path: &["windows", "opaque_resize"],
        kind: Kind::Bool {
            default: Some(true),
        },
        owner: Owner::Compositor,
        reload: Reload::Live,
        unit: Unit::Unitless,
        summary: "Show window contents while resizing",
        description: "Off rubber-bands the frame and configures the client once, on release, \
                      rather than on every motion event -- which is the cheaper of the two by \
                      a wide margin on a large window.",
    },
    Setting {
        key: "compositor.cursor.theme",
        file: File::Compositor,
        path: &["cursor", "theme"],
        // No default, and for the same reason as `compositor.keyboard.layout`: absent is not a
        // value here. It means "whatever XCURSOR_THEME says, or this machine's default theme",
        // which a UI has to be able to offer as its own choice rather than as an empty field.
        // What a wlRIX install actually gets is `sgi`, from the system default config the
        // compositor installs -- and a user file a panel writes is seeded from that.
        kind: Kind::Str { default: None },
        owner: Owner::Compositor,
        reload: Reload::Live,
        unit: Unit::Unitless,
        summary: "Cursor theme",
        description: "An XCursor theme name -- a directory under share/icons on an XDG data \
                      directory, or under ~/.icons. wlRIX ships sgi, the IRIX pointer set. A \
                      theme that is not installed leaves a plain built-in arrow.",
    },
    Setting {
        key: "compositor.cursor.size",
        file: File::Compositor,
        path: &["cursor", "size"],
        // Also no default: absent falls through to XCURSOR_SIZE before it reaches the built-in
        // 24. The range starts at 8 rather than 1 because a pointer smaller than that is not
        // findable on screen, and a settings panel offering it is offering a way to lose the
        // cursor with no obvious way back.
        kind: Kind::Int {
            default: None,
            min: 8,
            max: 512,
        },
        owner: Owner::Compositor,
        reload: Reload::Live,
        unit: Unit::Pixels,
        summary: "Cursor size",
        description: "Nominal, not literal: a theme carries whichever sizes its author drew and \
                      the nearest is used. sgi has 32 and nothing else, which is what the system \
                      default config asks for -- anything else would get the same images and \
                      tell every client to resample them.",
    },
    Setting {
        key: "compositor.idle.blank_after_secs",
        file: File::Compositor,
        path: &["idle", "blank_after_secs"],
        // No default: absent and 0 both mean "never", and the compositor's own docs ask for
        // the section to be left out entirely on an ordinary install.
        kind: Kind::Int {
            default: None,
            min: 0,
            max: A_DAY,
        },
        owner: Owner::Compositor,
        reload: Reload::Live,
        unit: Unit::Seconds,
        summary: "Blank the screen after (deprecated)",
        description: "Deprecated: wlrix-idle owns idle policy for a wlRIX session and is \
                      started as part of it, so this should normally be left unset. Two idle \
                      timers on one screen fail in a way that is hard to diagnose -- a blank a \
                      client asked for is left alone by input, so once this one has fired \
                      against wlrix-idle's back, nothing switches the screens on again.",
    },
    Setting {
        key: "compositor.appearance.palette",
        file: File::Compositor,
        path: &["appearance", "palette"],
        kind: Kind::Str { default: None },
        owner: Owner::Compositor,
        reload: Reload::Live,
        unit: Unit::Unitless,
        summary: "Color scheme",
        description: "A scheme id from wlrix-ui. Empty or unrecognized means the default, with \
                      a line in the log for the latter -- a mistyped scheme name must not leave \
                      somebody with no session at all. Normally written through the \
                      `appearance.palette` group rather than on its own, so the chrome and the \
                      rest of the desktop move together.",
    },
    // `[[output]]` is deliberately not declared. Four reasons, and the README carries them in
    // full: it is a keyed collection rather than a leaf; `outputs::resolve` overlays the
    // machine-written `outputs.toml` on top of it per field, so a hand-set mode is silently
    // overridden the moment the compositor next saves; `reload_config` never re-runs `resolve`,
    // so nothing would take effect before a restart anyway; and `wlr-output-management` already
    // exists in the compositor, is live, is atomic and has a test-and-rollback flow. A Displays
    // panel should speak that, not this.

    // ---------------------------------------------------------------------------------------
    // desktop.toml -- wlrix-desktop/src/config.rs
    //
    // `Reload::Live`, since wlrix-desktop gained a pidfile and a SIGHUP handler alongside this
    // daemon: its `reload_config` re-reads the file, drops the icon cache and lays the desktop
    // out again.
    //
    // `output` is the exception and stays `Restart`: moving the icons to another monitor means
    // tearing down the layer surface and building a new one against a different output, which
    // is a restart's worth of work for a setting nobody changes twice.
    // ---------------------------------------------------------------------------------------
    Setting {
        key: "desktop.snap_to_grid",
        file: File::Desktop,
        path: &["snap_to_grid"],
        kind: Kind::Bool {
            default: Some(false),
        },
        owner: Owner::Desktop,
        reload: Reload::Live,
        unit: Unit::Unitless,
        summary: "Snap icons to a grid",
        description: "The starting value only. The user can flip this at runtime and the state \
                      file remembers what they chose, which then wins over this.",
    },
    Setting {
        key: "desktop.output",
        file: File::Desktop,
        path: &["output"],
        kind: Kind::Str { default: None },
        owner: Owner::Desktop,
        // The one desktop setting a reload cannot apply: the layer surface is bound to an
        // output, and moving it means building a new one. wlrix-desktop says so in its own log
        // when it sees this change.
        reload: Reload::Restart,
        unit: Unit::Unitless,
        summary: "Monitor for desktop icons",
        description: "Which monitor the icons appear on, by connector name (DP-1, HDMI-A-1, \
                      Virtual-1). Empty lets wlrix-desktop work it out, which means the \
                      leftmost.",
    },
    Setting {
        key: "desktop.open",
        file: File::Desktop,
        path: &["open"],
        kind: Kind::StrList { default: &[] },
        owner: Owner::Desktop,
        reload: Reload::Live,
        unit: Unit::Unitless,
        summary: "Command that opens a file",
        description: "The command and its leading arguments; the file or URL is appended. \
                      Empty means xdg-open, which consults the user's MIME associations.",
    },
    Setting {
        key: "desktop.terminal",
        file: File::Desktop,
        path: &["terminal"],
        kind: Kind::StrList { default: &[] },
        owner: Owner::Desktop,
        reload: Reload::Live,
        unit: Unit::Unitless,
        summary: "Terminal for Terminal=true launchers",
        description: "The command and its leading arguments that wrap a console program; the \
                      program is appended. Empty lets wlrix-desktop work one out.",
    },
    Setting {
        key: "desktop.metrics.icon",
        file: File::Desktop,
        path: &["metrics", "icon"],
        kind: Kind::Int {
            default: Some(64),
            min: 8,
            max: 512,
        },
        owner: Owner::Desktop,
        reload: Reload::Live,
        unit: Unit::Pixels,
        summary: "Icon size",
        description: "The icon artwork, square. A cell is never smaller than its icon, so \
                      raising this raises the cell with it.",
    },
    Setting {
        key: "desktop.metrics.cell_width",
        file: File::Desktop,
        path: &["metrics", "cell_width"],
        kind: Kind::Int {
            default: Some(96),
            min: 8,
            max: 1024,
        },
        owner: Owner::Desktop,
        reload: Reload::Live,
        unit: Unit::Pixels,
        summary: "Cell width",
        description: "One cell holds the icon and its label. Too narrow and long filenames are \
                      cut.",
    },
    Setting {
        key: "desktop.metrics.cell_height",
        file: File::Desktop,
        path: &["metrics", "cell_height"],
        kind: Kind::Int {
            default: Some(104),
            min: 8,
            max: 1024,
        },
        owner: Owner::Desktop,
        reload: Reload::Live,
        unit: Unit::Pixels,
        summary: "Cell height",
        description: "The default is the icon, a small gap, and two lines of label with a \
                      little slack. Shave a few pixels off and the second label line silently \
                      stops fitting, which shows up as every long filename being cut after one \
                      line.",
    },
    Setting {
        key: "desktop.metrics.gap",
        file: File::Desktop,
        path: &["metrics", "gap"],
        kind: Kind::Int {
            default: Some(8),
            min: 0,
            max: 256,
        },
        owner: Owner::Desktop,
        reload: Reload::Live,
        unit: Unit::Pixels,
        summary: "Gap between cells",
        description: "Space between one cell and the next, in both directions.",
    },
    Setting {
        key: "desktop.metrics.margin",
        file: File::Desktop,
        path: &["metrics", "margin"],
        kind: Kind::Int {
            default: Some(12),
            min: 0,
            max: 512,
        },
        owner: Owner::Desktop,
        reload: Reload::Live,
        unit: Unit::Pixels,
        summary: "Margin at the screen edge",
        description: "Space between the outermost cells and the edge of the monitor.",
    },
    // `appearance.palette` is declared here *and* in three other files, and is normally written
    // through the `appearance.palette` group in `schema::group`, which fans one write out to all
    // four and signals all four owners. This entry is what that expands to; it is still settable
    // on its own for a session that genuinely wants one component different.
    //
    // `appearance.icon_theme` has no group and wants none. It is genuinely per component: the
    // desktop draws 64-pixel launcher symbols and the tray draws 22-pixel cells, and the theme
    // that suits one need not suit the other.
    Setting {
        key: "desktop.appearance.palette",
        file: File::Desktop,
        path: &["appearance", "palette"],
        kind: Kind::Str { default: None },
        owner: Owner::Desktop,
        reload: Reload::Live,
        unit: Unit::Unitless,
        summary: "Color scheme",
        description: "A scheme id from wlrix-ui. Empty or unrecognized means the default, with \
                      a line in the log for the latter -- a mistyped scheme name must not leave \
                      the desktop unpainted.",
    },
    Setting {
        key: "desktop.appearance.icon_theme",
        file: File::Desktop,
        path: &["appearance", "icon_theme"],
        kind: Kind::Str {
            default: Some("Adwaita"),
        },
        owner: Owner::Desktop,
        reload: Reload::Live,
        unit: Unit::Unitless,
        summary: "Icon theme an Icon= name is looked up in",
        description: "Searched before hicolor and /usr/share/pixmaps, which between them have \
                      almost nothing a .desktop file names -- a launcher whose icon is not found \
                      is drawn as a bare magic carpet with no symbol on it. Empty means no named \
                      theme.",
    },
    // ---------------------------------------------------------------------------------------
    // idle.toml -- wlrix-idle/src/config.rs
    //
    // `[[timeout]]` is absent for the same reason as `[[output]]`: it is a collection, and one
    // countdown is four fields that only mean anything together. It is also the section most
    // worth a bespoke UI rather than a generic one.
    // ---------------------------------------------------------------------------------------
    Setting {
        key: "idle.lock.command",
        file: File::Idle,
        path: &["lock", "command"],
        kind: Kind::Str { default: None },
        owner: Owner::Idle,
        reload: Reload::Live,
        unit: Unit::Unitless,
        summary: "Screen locker",
        description: "The locker to run, e.g. \"swaylock -f -c 000000\". Nothing by default: \
                      which locker a session uses is a choice, and guessing at one that is not \
                      installed would turn every lock into a silent no-op.",
    },
    Setting {
        key: "idle.before_sleep.lock",
        file: File::Idle,
        path: &["before_sleep", "lock"],
        kind: Kind::Bool {
            default: Some(false),
        },
        owner: Owner::Idle,
        reload: Reload::Live,
        unit: Unit::Unitless,
        summary: "Lock before suspending",
        description: "Run the locker while logind holds the machine back from suspending, so \
                      the screen is already locked when it wakes.",
    },
    Setting {
        key: "idle.before_sleep.blank",
        file: File::Idle,
        path: &["before_sleep", "blank"],
        kind: Kind::Bool {
            default: Some(false),
        },
        owner: Owner::Idle,
        reload: Reload::Live,
        unit: Unit::Unitless,
        summary: "Blank before suspending",
        description: "Switch the monitors off before the machine suspends.",
    },
    Setting {
        key: "idle.before_sleep.command",
        file: File::Idle,
        path: &["before_sleep", "command"],
        kind: Kind::Str { default: None },
        owner: Owner::Idle,
        reload: Reload::Live,
        unit: Unit::Unitless,
        summary: "Command to run before suspending",
        description: "Run through sh -c, so quoting and pipes work. It has to finish inside \
                      the delay below.",
    },
    Setting {
        key: "idle.before_sleep.timeout_secs",
        file: File::Idle,
        path: &["before_sleep", "timeout_secs"],
        kind: Kind::Int {
            default: Some(4),
            min: 1,
            max: 20,
        },
        owner: Owner::Idle,
        reload: Reload::Live,
        unit: Unit::Seconds,
        summary: "How long to hold suspend back",
        description: "logind's InhibitDelayMaxSec is five seconds by default; past that it \
                      suspends regardless, so a longer wait here only means losing the race \
                      with the lock half-run.",
    },
    Setting {
        key: "idle.gamepad.enable",
        file: File::Idle,
        path: &["gamepad", "enable"],
        kind: Kind::Bool {
            default: Some(true),
        },
        owner: Owner::Idle,
        reload: Reload::Live,
        unit: Unit::Unitless,
        summary: "Count controller input as activity",
        description: "libinput classifies a gamepad as a joystick and drops it, so the \
                      compositor never sees a stick move and its idle timer never resets. \
                      wlrix-idle reads controllers straight from evdev to fix exactly that.",
    },
    Setting {
        key: "idle.gamepad.deadzone",
        file: File::Idle,
        path: &["gamepad", "deadzone"],
        kind: Kind::Float {
            default: Some(FloatLit { bits: 0x3FD0000000000000, text: "0.25" }),
            min: FloatLit { bits: 0x3F947AE147AE147B, text: "0.02" },
            max: FloatLit { bits: 0x3FECCCCCCCCCCCCD, text: "0.9" },
        },
        owner: Owner::Idle,
        reload: Reload::Live,
        unit: Unit::Unitless,
        summary: "Stick deadzone",
        description: "How far a stick has to move before it counts, as a fraction of its \
                      travel from rest to the end of the axis. Triggers and d-pads rest at one \
                      end, so every press clears it.",
    },
    Setting {
        key: "idle.gamepad.min_interval_ms",
        file: File::Idle,
        path: &["gamepad", "min_interval_ms"],
        kind: Kind::Int {
            default: Some(1000),
            min: 0,
            max: 60_000,
        },
        owner: Owner::Idle,
        reload: Reload::Live,
        unit: Unit::Milliseconds,
        summary: "Least time between reports",
        description: "One device cannot report activity more often than this. A stick held \
                      over would otherwise wake the idle timer thousands of times a second.",
    },
    Setting {
        key: "idle.gamepad.allow",
        file: File::Idle,
        path: &["gamepad", "allow"],
        kind: Kind::StrList { default: &[] },
        owner: Owner::Idle,
        reload: Reload::Live,
        unit: Unit::Unitless,
        summary: "Only these controllers",
        description: "Case-insensitive substrings of the device name. Empty means every \
                      controller.",
    },
    Setting {
        key: "idle.gamepad.deny",
        file: File::Idle,
        path: &["gamepad", "deny"],
        kind: Kind::StrList { default: &[] },
        owner: Owner::Idle,
        reload: Reload::Live,
        unit: Unit::Unitless,
        summary: "Never these controllers",
        description: "Case-insensitive substrings of the device name, for a device that \
                      reports movement on its own.",
    },
    Setting {
        key: "idle.gamepad.devices",
        file: File::Idle,
        path: &["gamepad", "devices"],
        kind: Kind::StrList { default: &[] },
        owner: Owner::Idle,
        reload: Reload::Live,
        unit: Unit::Unitless,
        summary: "Controllers to use regardless",
        description: "Paths under /dev/input to treat as controllers whatever the detection \
                      thinks, for the one nobody's heuristic gets right.",
    },
    Setting {
        key: "idle.dbus.screensaver",
        file: File::Idle,
        path: &["dbus", "screensaver"],
        kind: Kind::Bool {
            default: Some(true),
        },
        owner: Owner::Idle,
        // Not Live. wlrix-idle's own reload refuses this section by name: dropping and
        // retaking a bus name would silently void every inhibit applications are holding right
        // now, and open a gap for another desktop's daemon to take the name.
        reload: Reload::Restart,
        unit: Unit::Unitless,
        summary: "Serve org.freedesktop.ScreenSaver",
        description: "How Firefox, mpv and Steam say \"not now\" while something is playing. \
                      Turning it off means the screen blanks during a film.",
    },
    Setting {
        key: "idle.dbus.power_management",
        file: File::Idle,
        path: &["dbus", "power_management"],
        kind: Kind::Bool {
            default: Some(true),
        },
        owner: Owner::Idle,
        reload: Reload::Restart,
        unit: Unit::Unitless,
        summary: "Serve org.freedesktop.PowerManagement.Inhibit",
        description: "The older inhibit interface, which some applications still use instead \
                      of the ScreenSaver one.",
    },
    Setting {
        key: "idle.dbus.logind",
        file: File::Idle,
        path: &["dbus", "logind"],
        kind: Kind::Bool {
            default: Some(true),
        },
        owner: Owner::Idle,
        reload: Reload::Restart,
        unit: Unit::Unitless,
        summary: "Take logind's delay inhibitor",
        description: "What makes the before-suspend actions above possible at all. With this \
                      off, the machine suspends without waiting for them.",
    },
    Setting {
        key: "idle.dbus.replace",
        file: File::Idle,
        path: &["dbus", "replace"],
        kind: Kind::Bool {
            default: Some(false),
        },
        owner: Owner::Idle,
        reload: Reload::Restart,
        unit: Unit::Unitless,
        summary: "Take the bus names from whoever holds them",
        description: "For running wlrix-idle inside another desktop, which already owns them. \
                      Taking a live KDE session's inhibit handling away breaks it, so this is \
                      off unless asked for.",
    },
    // ---------------------------------------------------------------------------------------
    // portal.toml -- xdg-desktop-portal-wlrix/src/config.rs
    //
    // `Reload::Never`, and deliberately so: the portal installs no reload handler, and its own
    // signals.rs says why -- a screen share is not something to reconfigure underneath. The
    // right action is `systemctl --user try-restart`, but only when no cast is live, which the
    // daemon has no way to know. So it reports and leaves it to the user.
    //
    // `[preview] tile` is absent: it is a fixed-length pair of numbers, which none of the
    // scalar kinds describe and which a wrong-length list would turn into a parse failure.
    // ---------------------------------------------------------------------------------------
    Setting {
        key: "portal.preview.tick_ms",
        file: File::Portal,
        path: &["preview", "tick_ms"],
        kind: Kind::Int {
            default: Some(100),
            min: 1,
            max: 60_000,
        },
        owner: Owner::Portal,
        reload: Reload::Never,
        unit: Unit::Milliseconds,
        summary: "Preview refresh interval",
        description: "How often one source is captured for the screen-share picker. Not the \
                      refresh rate of a tile: sources take turns, so with ten of them the \
                      default refreshes each about once a second. Lower it to make the grid \
                      livelier and the readback more expensive.",
    },
    // ---------------------------------------------------------------------------------------
    // screenshot.toml -- wlrix-screenshot/src/config.rs
    //
    // `Reload::Never` throughout, and for a different reason from the portal's: there is nothing
    // running to tell. `wlrix-screenshot` is spawned per screenshot and reads its config each
    // time, so a change is in effect for the next one -- which is as immediate as it gets.
    //
    // `[appearance] dim` is here as a float; `[save] filename` is a strftime template and is a
    // plain string, since its validity is the C library's opinion rather than a pattern this
    // table could state.
    // ---------------------------------------------------------------------------------------
    Setting {
        key: "screenshot.save.dir",
        file: File::Screenshot,
        path: &["save", "dir"],
        kind: Kind::Str { default: None },
        owner: Owner::Screenshot,
        reload: Reload::Never,
        unit: Unit::Unitless,
        summary: "Where screenshots are saved",
        description: "Empty means the XDG pictures directory plus Screenshots. A leading ~/ is \
                      expanded; the directory is created when the first shot is saved.",
    },
    Setting {
        key: "screenshot.save.filename",
        file: File::Screenshot,
        path: &["save", "filename"],
        kind: Kind::Str {
            default: Some("Screenshot_%Y-%m-%d_%H-%M-%S"),
        },
        owner: Owner::Screenshot,
        reload: Reload::Never,
        unit: Unit::Unitless,
        summary: "Filename template",
        description: "A strftime template, without the extension. Every conversion strftime(3) \
                      documents works. A second shot in the same second gets -2 appended \
                      rather than overwriting the first.",
    },
    Setting {
        key: "screenshot.capture.cursor",
        file: File::Screenshot,
        path: &["capture", "cursor"],
        kind: Kind::Bool {
            default: Some(false),
        },
        owner: Owner::Screenshot,
        reload: Reload::Never,
        unit: Unit::Unitless,
        summary: "Draw the pointer into the shot",
        description: "Off by default: the pointer is usually somewhere incidental when the key \
                      is pressed, and a shot of a menu is spoiled rather than explained by an \
                      arrow in the corner of it.",
    },
    Setting {
        key: "screenshot.appearance.palette",
        file: File::Screenshot,
        path: &["appearance", "palette"],
        kind: Kind::Str { default: None },
        owner: Owner::Screenshot,
        reload: Reload::Never,
        unit: Unit::Unitless,
        summary: "Color scheme",
        description: "A scheme id from wlrix-ui. Empty or unrecognized means the default, with \
                      a line on stderr for the latter.",
    },
    Setting {
        key: "screenshot.appearance.dim",
        file: File::Screenshot,
        path: &["appearance", "dim"],
        kind: Kind::Float {
            default: Some(FloatLit { bits: 0x3FE199999999999A, text: "0.55" }),
            min: FloatLit { bits: 0x0000000000000000, text: "0" },
            max: FloatLit { bits: 0x3FF0000000000000, text: "1" },
        },
        owner: Owner::Screenshot,
        reload: Reload::Never,
        unit: Unit::Unitless,
        summary: "How far the unselected area is darkened",
        description: "0.0 leaves it alone, 1.0 blacks it out. The default is dark enough that \
                      the selection reads as the subject and light enough that what is outside \
                      it is still recognizable -- which matters, because the point of adjusting \
                      a selection is seeing what you are about to leave out.",
    },
    // ---------------------------------------------------------------------------------------
    // session.toml -- wlrix-session/src/config.rs
    //
    // Read once, before there is a compositor. `[[app]]` and `[env]` are a collection and a
    // free-form map; both wait for the collection surface.
    // ---------------------------------------------------------------------------------------
    Setting {
        key: "session.compositor",
        file: File::Session,
        path: &["compositor"],
        kind: Kind::Str { default: None },
        owner: Owner::Nobody,
        reload: Reload::NextLogin,
        unit: Unit::Unitless,
        summary: "Compositor to run",
        description: "Empty leaves the built-in default, wlrix-compositor. Changing this is \
                      how you run a patched build for one session without touching the \
                      installed one.",
    },
    // ---------------------------------------------------------------------------------------
    // tray.toml -- wlrix-tray/src/config.rs
    //
    // `[[item]]` is absent for the usual reason: it is an array of tables keyed by an item's
    // D-Bus `Id`, and a keyed collection needs add/remove/reorder rather than get/set.
    // ---------------------------------------------------------------------------------------
    Setting {
        key: "tray.output",
        file: File::Tray,
        path: &["output"],
        kind: Kind::Str { default: None },
        owner: Owner::Tray,
        reload: Reload::Live,
        unit: Unit::Unitless,
        summary: "Which monitor the tray is on",
        description: "A connector name (DP-1, HDMI-A-1). Empty means the leftmost. A name that \
                      is not plugged in falls back to the leftmost with a line on stderr.",
    },
    Setting {
        key: "tray.anchor",
        file: File::Tray,
        path: &["anchor"],
        kind: Kind::Enum {
            default: Some("bottom-left"),
            // Exactly what `#[serde(rename_all = "kebab-case")]` on wlrix-tray's `Anchor`
            // accepts. Its own tests assert that "bottom left" is rejected, so offering a
            // spaced or capitalized form here would cost the user their whole file.
            choices: &[
                Choice {
                    value: "bottom-left",
                    label: "Bottom left",
                },
                Choice {
                    value: "bottom-right",
                    label: "Bottom right",
                },
                Choice {
                    value: "top-left",
                    label: "Top left",
                },
                Choice {
                    value: "top-right",
                    label: "Top right",
                },
            ],
        },
        owner: Owner::Tray,
        reload: Reload::Live,
        unit: Unit::Unitless,
        summary: "Which corner the tray docks in",
        description: "IRIX put it bottom left, which is the default. The strip fills away from \
                      the corner and wraps inward, so it grows onto the desktop rather than \
                      off the screen.",
    },
    Setting {
        key: "tray.orientation",
        file: File::Tray,
        path: &["orientation"],
        kind: Kind::Enum {
            default: Some("horizontal"),
            choices: &[
                Choice {
                    value: "horizontal",
                    label: "Along the screen edge",
                },
                Choice {
                    value: "vertical",
                    label: "Inward from the edge",
                },
            ],
        },
        owner: Owner::Tray,
        reload: Reload::Live,
        unit: Unit::Unitless,
        summary: "Which way the strip runs",
        description: "Horizontal runs along the screen edge and wraps to a second row inward; \
                      vertical runs inward and wraps to a second column sideways.",
    },
    Setting {
        key: "tray.show_passive",
        file: File::Tray,
        path: &["show_passive"],
        kind: Kind::Bool {
            default: Some(false),
        },
        owner: Owner::Tray,
        reload: Reload::Live,
        unit: Unit::Unitless,
        summary: "Show items that are not asking for attention",
        description: "The specification lets a tray hide an item whose Status is Passive, and \
                      applications rely on it -- several park an item there permanently. On, \
                      the strip becomes a list of everything that has ever started.",
    },
    Setting {
        key: "tray.hide_when_empty",
        file: File::Tray,
        path: &["hide_when_empty"],
        kind: Kind::Bool {
            default: Some(true),
        },
        owner: Owner::Tray,
        reload: Reload::Live,
        unit: Unit::Unitless,
        summary: "Disappear when there is nothing to show",
        description: "Off leaves an empty beveled well on the desktop, which makes the tray \
                      discoverable -- there is somewhere for an icon to appear.",
    },
    Setting {
        key: "tray.appearance.palette",
        file: File::Tray,
        path: &["appearance", "palette"],
        kind: Kind::Str { default: None },
        owner: Owner::Tray,
        reload: Reload::Live,
        unit: Unit::Unitless,
        summary: "Color scheme",
        description: "A scheme id from wlrix-ui. Empty or unrecognized means the default, with \
                      a line on stderr for the latter.",
    },
    Setting {
        key: "tray.appearance.icon_theme",
        file: File::Tray,
        path: &["appearance", "icon_theme"],
        kind: Kind::Str {
            default: Some("Adwaita"),
        },
        owner: Owner::Tray,
        reload: Reload::Live,
        unit: Unit::Unitless,
        summary: "Icon theme an item's IconName is looked up in",
        description: "Searched before hicolor and /usr/share/pixmaps, which between them have \
                      almost nothing a tray wants -- fcitx5's input-keyboard-symbolic is in \
                      every other theme and neither of those. Empty means no named theme.",
    },
    Setting {
        key: "tray.metrics.icon",
        file: File::Tray,
        path: &["metrics", "icon"],
        kind: Kind::Int {
            default: Some(22),
            min: 8,
            max: 128,
        },
        owner: Owner::Tray,
        reload: Reload::Live,
        unit: Unit::Pixels,
        summary: "Icon size",
        description: "22 is what almost every IconPixmap on the bus arrives at, so it is the \
                      one size that needs no scaling.",
    },
    Setting {
        key: "tray.metrics.cell",
        file: File::Tray,
        path: &["metrics", "cell"],
        kind: Kind::Int {
            default: Some(28),
            min: 8,
            max: 160,
        },
        owner: Owner::Tray,
        reload: Reload::Live,
        unit: Unit::Pixels,
        summary: "Cell size",
        description: "One cell: the icon plus the room its bevel and highlight need. Floored at \
                      the icon size rather than refused.",
    },
    Setting {
        key: "tray.metrics.gap",
        file: File::Tray,
        path: &["metrics", "gap"],
        kind: Kind::Int {
            default: Some(2),
            min: 0,
            max: 32,
        },
        owner: Owner::Tray,
        reload: Reload::Live,
        unit: Unit::Pixels,
        summary: "Gap between cells",
        description: "Zero puts the cells edge to edge, which is how a row of them reads as one \
                      strip rather than several buttons.",
    },
    Setting {
        key: "tray.metrics.margin",
        file: File::Tray,
        path: &["metrics", "margin"],
        kind: Kind::Int {
            default: Some(8),
            min: 0,
            max: 200,
        },
        owner: Owner::Tray,
        reload: Reload::Live,
        unit: Unit::Pixels,
        summary: "Distance from the screen edges",
        description: "How far the strip sits from the two edges it is anchored to.",
    },
    Setting {
        key: "tray.metrics.wrap_at",
        file: File::Tray,
        path: &["metrics", "wrap_at"],
        kind: Kind::Int {
            default: Some(8),
            min: 1,
            max: 64,
        },
        owner: Owner::Tray,
        reload: Reload::Live,
        unit: Unit::Unitless,
        summary: "Cells per run before the strip wraps",
        description: "Named for what it does rather than max_columns: in vertical orientation \
                      the run is a column and the wrap makes a new one sideways.",
    },
];
    assert(r@ =~= table());
    r
}

/// Every setting that takes effect live has an owner with a pidfile to signal it through, so
/// telling the owner never falls back to asking for a restart for want of one.
pub proof fn law_live_settings_have_a_pidfile()
    ensures
        forall|i: int|
            0 <= i < table().len() && (#[trigger] table()[i]).reload == Reload::Live
                ==> spec_pidfile(table()[i].owner) is Some,
{
    let t = table();
    assert forall|i: int| 0 <= i < t.len() && (#[trigger] t[i]).reload == Reload::Live implies spec_pidfile(
        t[i].owner,
    ) is Some by {
    }
}

/// Whether some setting lives in `file`.
pub open spec fn holds_a_setting(file: File) -> bool {
    exists|i: int| 0 <= i < table().len() && (#[trigger] table()[i]).file == file
}

/// Every file the daemon serves holds at least one setting, so no namespace it lists comes up
/// empty.
pub proof fn law_every_file_has_a_setting()
    ensures
        forall|file: File| #[trigger] holds_a_setting(file),
{
    let t = table();
    assert forall|file: File| #[trigger] holds_a_setting(file) by {
        match file {
            File::Background => assert(t[0].file == file),
            File::Compositor => assert(t[3].file == file),
            File::Desktop => assert(t[18].file == file),
            File::Idle => assert(t[29].file == file),
            File::Portal => assert(t[44].file == file),
            File::Screenshot => assert(t[45].file == file),
            File::Session => assert(t[50].file == file),
            File::Tray => assert(t[51].file == file),
        }
    }
}

/// Every setting's path has one part, a top-level key, or two, a key inside a section.
pub proof fn law_paths_have_one_or_two_parts()
    ensures
        forall|i: int|
            0 <= i < table().len() ==> 1 <= (#[trigger] table()[i]).path@.len() <= 2,
{
}

/// The key a setting is named by: its file's namespace, then the parts of its path, all joined
/// by dots.
pub open spec fn key_for(setting: Setting) -> Seq<char> {
    spec_namespace(setting.file) + "."@ + spec_join_with(
        setting.path@.map_values(|part: &str| part@),
        "."@,
    )
}

/// Every key is its file's namespace and its path, joined by dots: the key says which file a
/// setting lives in and where in it.
pub proof fn law_keys_are_namespace_and_path()
    ensures
        forall|i: int| 0 <= i < table().len() ==> (#[trigger] table()[i]).key@ == key_for(table()[i]),
{
    reveal_with_fuel(spec_join_with, 3);
    reveal_strlit(".");
    reveal_strlit("background.image");
    reveal_strlit("background");
    reveal_strlit("image");
    reveal_strlit("background.mode");
    reveal_strlit("mode");
    reveal_strlit("background.color");
    reveal_strlit("color");
    reveal_strlit("compositor.keyboard.rules");
    reveal_strlit("compositor");
    reveal_strlit("keyboard");
    reveal_strlit("rules");
    reveal_strlit("compositor.keyboard.model");
    reveal_strlit("model");
    reveal_strlit("compositor.keyboard.layout");
    reveal_strlit("layout");
    reveal_strlit("compositor.keyboard.variant");
    reveal_strlit("variant");
    reveal_strlit("compositor.keyboard.options");
    reveal_strlit("options");
    reveal_strlit("compositor.keyboard.repeat_delay");
    reveal_strlit("repeat_delay");
    reveal_strlit("compositor.keyboard.repeat_rate");
    reveal_strlit("repeat_rate");
    reveal_strlit("compositor.focus.policy");
    reveal_strlit("focus");
    reveal_strlit("policy");
    reveal_strlit("compositor.focus.raise_on_click");
    reveal_strlit("raise_on_click");
    reveal_strlit("compositor.windows.opaque_move");
    reveal_strlit("windows");
    reveal_strlit("opaque_move");
    reveal_strlit("compositor.windows.opaque_resize");
    reveal_strlit("opaque_resize");
    reveal_strlit("compositor.cursor.theme");
    reveal_strlit("cursor");
    reveal_strlit("theme");
    reveal_strlit("compositor.cursor.size");
    reveal_strlit("size");
    reveal_strlit("compositor.idle.blank_after_secs");
    reveal_strlit("idle");
    reveal_strlit("blank_after_secs");
    reveal_strlit("compositor.appearance.palette");
    reveal_strlit("appearance");
    reveal_strlit("palette");
    reveal_strlit("desktop.snap_to_grid");
    reveal_strlit("desktop");
    reveal_strlit("snap_to_grid");
    reveal_strlit("desktop.output");
    reveal_strlit("output");
    reveal_strlit("desktop.open");
    reveal_strlit("open");
    reveal_strlit("desktop.terminal");
    reveal_strlit("terminal");
    reveal_strlit("desktop.metrics.icon");
    reveal_strlit("metrics");
    reveal_strlit("icon");
    reveal_strlit("desktop.metrics.cell_width");
    reveal_strlit("cell_width");
    reveal_strlit("desktop.metrics.cell_height");
    reveal_strlit("cell_height");
    reveal_strlit("desktop.metrics.gap");
    reveal_strlit("gap");
    reveal_strlit("desktop.metrics.margin");
    reveal_strlit("margin");
    reveal_strlit("desktop.appearance.palette");
    reveal_strlit("desktop.appearance.icon_theme");
    reveal_strlit("icon_theme");
    reveal_strlit("idle.lock.command");
    reveal_strlit("lock");
    reveal_strlit("command");
    reveal_strlit("idle.before_sleep.lock");
    reveal_strlit("before_sleep");
    reveal_strlit("idle.before_sleep.blank");
    reveal_strlit("blank");
    reveal_strlit("idle.before_sleep.command");
    reveal_strlit("idle.before_sleep.timeout_secs");
    reveal_strlit("timeout_secs");
    reveal_strlit("idle.gamepad.enable");
    reveal_strlit("gamepad");
    reveal_strlit("enable");
    reveal_strlit("idle.gamepad.deadzone");
    reveal_strlit("deadzone");
    reveal_strlit("idle.gamepad.min_interval_ms");
    reveal_strlit("min_interval_ms");
    reveal_strlit("idle.gamepad.allow");
    reveal_strlit("allow");
    reveal_strlit("idle.gamepad.deny");
    reveal_strlit("deny");
    reveal_strlit("idle.gamepad.devices");
    reveal_strlit("devices");
    reveal_strlit("idle.dbus.screensaver");
    reveal_strlit("dbus");
    reveal_strlit("screensaver");
    reveal_strlit("idle.dbus.power_management");
    reveal_strlit("power_management");
    reveal_strlit("idle.dbus.logind");
    reveal_strlit("logind");
    reveal_strlit("idle.dbus.replace");
    reveal_strlit("replace");
    reveal_strlit("portal.preview.tick_ms");
    reveal_strlit("portal");
    reveal_strlit("preview");
    reveal_strlit("tick_ms");
    reveal_strlit("screenshot.save.dir");
    reveal_strlit("screenshot");
    reveal_strlit("save");
    reveal_strlit("dir");
    reveal_strlit("screenshot.save.filename");
    reveal_strlit("filename");
    reveal_strlit("screenshot.capture.cursor");
    reveal_strlit("capture");
    reveal_strlit("screenshot.appearance.palette");
    reveal_strlit("screenshot.appearance.dim");
    reveal_strlit("dim");
    reveal_strlit("session.compositor");
    reveal_strlit("session");
    reveal_strlit("tray.output");
    reveal_strlit("tray");
    reveal_strlit("tray.anchor");
    reveal_strlit("anchor");
    reveal_strlit("tray.orientation");
    reveal_strlit("orientation");
    reveal_strlit("tray.show_passive");
    reveal_strlit("show_passive");
    reveal_strlit("tray.hide_when_empty");
    reveal_strlit("hide_when_empty");
    reveal_strlit("tray.appearance.palette");
    reveal_strlit("tray.appearance.icon_theme");
    reveal_strlit("tray.metrics.icon");
    reveal_strlit("tray.metrics.cell");
    reveal_strlit("cell");
    reveal_strlit("tray.metrics.gap");
    reveal_strlit("tray.metrics.margin");
    reveal_strlit("tray.metrics.wrap_at");
    reveal_strlit("wrap_at");
    let t = table();
    assert forall|i: int| 0 <= i < t.len() implies (#[trigger] t[i]).key@ == key_for(t[i]) by {
        assert(t[i].key@ =~= key_for(t[i]));
    }
}

/// The settings of each file stand together in the table, in one run.
proof fn lemma_files_in_runs()
    ensures
        forall|i: int|
            #![trigger table()[i]]
            0 <= i < table().len() ==> {
            &&& (table()[i].file == File::Background <==> 0 <= i < 3)
            &&& (table()[i].file == File::Compositor <==> 3 <= i < 18)
            &&& (table()[i].file == File::Desktop <==> 18 <= i < 29)
            &&& (table()[i].file == File::Idle <==> 29 <= i < 44)
            &&& (table()[i].file == File::Portal <==> 44 <= i < 45)
            &&& (table()[i].file == File::Screenshot <==> 45 <= i < 50)
            &&& (table()[i].file == File::Session <==> 50 <= i < 51)
            &&& (table()[i].file == File::Tray <==> 51 <= i < 63)
            },
{
}

/// No two settings of `background` share a key: each pair differs in length or in some character.
proof fn lemma_keys_differ_in_background()
    ensures
        forall|i: int, j: int|
            0 <= i < j < 3 ==> (#[trigger] table()[i]).key@ != (#[trigger] table()[j]).key@,
{
    let t = table();
    reveal_strlit("background.image");
    reveal_strlit("background.mode");
    reveal_strlit("background.color");
    assert forall|i: int, j: int| 0 <= i < j < 3 implies (#[trigger] t[i]).key@ != (
    #[trigger] t[j]).key@ by {
        if i == 0 {
            if j == 1 {
                assert(t[0].key@.len() != t[1].key@.len());
            } else if j == 2 {
                assert(t[0].key@[11] != t[2].key@[11]);
            }
        } else if i == 1 {
            if j == 2 {
                assert(t[1].key@.len() != t[2].key@.len());
            }
        }
    }
}

/// No two settings of `compositor` share a key: each pair differs in length or in some character.
proof fn lemma_keys_differ_in_compositor()
    ensures
        forall|i: int, j: int|
            3 <= i < j < 18 ==> (#[trigger] table()[i]).key@ != (#[trigger] table()[j]).key@,
{
    let t = table();
    reveal_strlit("compositor.keyboard.rules");
    reveal_strlit("compositor.keyboard.model");
    reveal_strlit("compositor.keyboard.layout");
    reveal_strlit("compositor.keyboard.variant");
    reveal_strlit("compositor.keyboard.options");
    reveal_strlit("compositor.keyboard.repeat_delay");
    reveal_strlit("compositor.keyboard.repeat_rate");
    reveal_strlit("compositor.focus.policy");
    reveal_strlit("compositor.focus.raise_on_click");
    reveal_strlit("compositor.windows.opaque_move");
    reveal_strlit("compositor.windows.opaque_resize");
    reveal_strlit("compositor.cursor.theme");
    reveal_strlit("compositor.cursor.size");
    reveal_strlit("compositor.idle.blank_after_secs");
    reveal_strlit("compositor.appearance.palette");
    assert forall|i: int, j: int| 3 <= i < j < 18 implies (#[trigger] t[i]).key@ != (
    #[trigger] t[j]).key@ by {
        if i == 3 {
            if j == 4 {
                assert(t[3].key@[20] != t[4].key@[20]);
            } else if j == 5 {
                assert(t[3].key@.len() != t[5].key@.len());
            } else if j == 6 {
                assert(t[3].key@.len() != t[6].key@.len());
            } else if j == 7 {
                assert(t[3].key@.len() != t[7].key@.len());
            } else if j == 8 {
                assert(t[3].key@.len() != t[8].key@.len());
            } else if j == 9 {
                assert(t[3].key@.len() != t[9].key@.len());
            } else if j == 10 {
                assert(t[3].key@.len() != t[10].key@.len());
            } else if j == 11 {
                assert(t[3].key@.len() != t[11].key@.len());
            } else if j == 12 {
                assert(t[3].key@.len() != t[12].key@.len());
            } else if j == 13 {
                assert(t[3].key@.len() != t[13].key@.len());
            } else if j == 14 {
                assert(t[3].key@.len() != t[14].key@.len());
            } else if j == 15 {
                assert(t[3].key@.len() != t[15].key@.len());
            } else if j == 16 {
                assert(t[3].key@.len() != t[16].key@.len());
            } else if j == 17 {
                assert(t[3].key@.len() != t[17].key@.len());
            }
        } else if i == 4 {
            if j == 5 {
                assert(t[4].key@.len() != t[5].key@.len());
            } else if j == 6 {
                assert(t[4].key@.len() != t[6].key@.len());
            } else if j == 7 {
                assert(t[4].key@.len() != t[7].key@.len());
            } else if j == 8 {
                assert(t[4].key@.len() != t[8].key@.len());
            } else if j == 9 {
                assert(t[4].key@.len() != t[9].key@.len());
            } else if j == 10 {
                assert(t[4].key@.len() != t[10].key@.len());
            } else if j == 11 {
                assert(t[4].key@.len() != t[11].key@.len());
            } else if j == 12 {
                assert(t[4].key@.len() != t[12].key@.len());
            } else if j == 13 {
                assert(t[4].key@.len() != t[13].key@.len());
            } else if j == 14 {
                assert(t[4].key@.len() != t[14].key@.len());
            } else if j == 15 {
                assert(t[4].key@.len() != t[15].key@.len());
            } else if j == 16 {
                assert(t[4].key@.len() != t[16].key@.len());
            } else if j == 17 {
                assert(t[4].key@.len() != t[17].key@.len());
            }
        } else if i == 5 {
            if j == 6 {
                assert(t[5].key@.len() != t[6].key@.len());
            } else if j == 7 {
                assert(t[5].key@.len() != t[7].key@.len());
            } else if j == 8 {
                assert(t[5].key@.len() != t[8].key@.len());
            } else if j == 9 {
                assert(t[5].key@.len() != t[9].key@.len());
            } else if j == 10 {
                assert(t[5].key@.len() != t[10].key@.len());
            } else if j == 11 {
                assert(t[5].key@.len() != t[11].key@.len());
            } else if j == 12 {
                assert(t[5].key@.len() != t[12].key@.len());
            } else if j == 13 {
                assert(t[5].key@.len() != t[13].key@.len());
            } else if j == 14 {
                assert(t[5].key@.len() != t[14].key@.len());
            } else if j == 15 {
                assert(t[5].key@.len() != t[15].key@.len());
            } else if j == 16 {
                assert(t[5].key@.len() != t[16].key@.len());
            } else if j == 17 {
                assert(t[5].key@.len() != t[17].key@.len());
            }
        } else if i == 6 {
            if j == 7 {
                assert(t[6].key@[20] != t[7].key@[20]);
            } else if j == 8 {
                assert(t[6].key@.len() != t[8].key@.len());
            } else if j == 9 {
                assert(t[6].key@.len() != t[9].key@.len());
            } else if j == 10 {
                assert(t[6].key@.len() != t[10].key@.len());
            } else if j == 11 {
                assert(t[6].key@.len() != t[11].key@.len());
            } else if j == 12 {
                assert(t[6].key@.len() != t[12].key@.len());
            } else if j == 13 {
                assert(t[6].key@.len() != t[13].key@.len());
            } else if j == 14 {
                assert(t[6].key@.len() != t[14].key@.len());
            } else if j == 15 {
                assert(t[6].key@.len() != t[15].key@.len());
            } else if j == 16 {
                assert(t[6].key@.len() != t[16].key@.len());
            } else if j == 17 {
                assert(t[6].key@.len() != t[17].key@.len());
            }
        } else if i == 7 {
            if j == 8 {
                assert(t[7].key@.len() != t[8].key@.len());
            } else if j == 9 {
                assert(t[7].key@.len() != t[9].key@.len());
            } else if j == 10 {
                assert(t[7].key@.len() != t[10].key@.len());
            } else if j == 11 {
                assert(t[7].key@.len() != t[11].key@.len());
            } else if j == 12 {
                assert(t[7].key@.len() != t[12].key@.len());
            } else if j == 13 {
                assert(t[7].key@.len() != t[13].key@.len());
            } else if j == 14 {
                assert(t[7].key@.len() != t[14].key@.len());
            } else if j == 15 {
                assert(t[7].key@.len() != t[15].key@.len());
            } else if j == 16 {
                assert(t[7].key@.len() != t[16].key@.len());
            } else if j == 17 {
                assert(t[7].key@.len() != t[17].key@.len());
            }
        } else if i == 8 {
            if j == 9 {
                assert(t[8].key@.len() != t[9].key@.len());
            } else if j == 10 {
                assert(t[8].key@.len() != t[10].key@.len());
            } else if j == 11 {
                assert(t[8].key@.len() != t[11].key@.len());
            } else if j == 12 {
                assert(t[8].key@.len() != t[12].key@.len());
            } else if j == 13 {
                assert(t[8].key@[11] != t[13].key@[11]);
            } else if j == 14 {
                assert(t[8].key@.len() != t[14].key@.len());
            } else if j == 15 {
                assert(t[8].key@.len() != t[15].key@.len());
            } else if j == 16 {
                assert(t[8].key@[11] != t[16].key@[11]);
            } else if j == 17 {
                assert(t[8].key@.len() != t[17].key@.len());
            }
        } else if i == 9 {
            if j == 10 {
                assert(t[9].key@.len() != t[10].key@.len());
            } else if j == 11 {
                assert(t[9].key@[11] != t[11].key@[11]);
            } else if j == 12 {
                assert(t[9].key@.len() != t[12].key@.len());
            } else if j == 13 {
                assert(t[9].key@.len() != t[13].key@.len());
            } else if j == 14 {
                assert(t[9].key@.len() != t[14].key@.len());
            } else if j == 15 {
                assert(t[9].key@.len() != t[15].key@.len());
            } else if j == 16 {
                assert(t[9].key@.len() != t[16].key@.len());
            } else if j == 17 {
                assert(t[9].key@.len() != t[17].key@.len());
            }
        } else if i == 10 {
            if j == 11 {
                assert(t[10].key@.len() != t[11].key@.len());
            } else if j == 12 {
                assert(t[10].key@.len() != t[12].key@.len());
            } else if j == 13 {
                assert(t[10].key@.len() != t[13].key@.len());
            } else if j == 14 {
                assert(t[10].key@[11] != t[14].key@[11]);
            } else if j == 15 {
                assert(t[10].key@.len() != t[15].key@.len());
            } else if j == 16 {
                assert(t[10].key@.len() != t[16].key@.len());
            } else if j == 17 {
                assert(t[10].key@.len() != t[17].key@.len());
            }
        } else if i == 11 {
            if j == 12 {
                assert(t[11].key@.len() != t[12].key@.len());
            } else if j == 13 {
                assert(t[11].key@.len() != t[13].key@.len());
            } else if j == 14 {
                assert(t[11].key@.len() != t[14].key@.len());
            } else if j == 15 {
                assert(t[11].key@.len() != t[15].key@.len());
            } else if j == 16 {
                assert(t[11].key@.len() != t[16].key@.len());
            } else if j == 17 {
                assert(t[11].key@.len() != t[17].key@.len());
            }
        } else if i == 12 {
            if j == 13 {
                assert(t[12].key@.len() != t[13].key@.len());
            } else if j == 14 {
                assert(t[12].key@.len() != t[14].key@.len());
            } else if j == 15 {
                assert(t[12].key@.len() != t[15].key@.len());
            } else if j == 16 {
                assert(t[12].key@.len() != t[16].key@.len());
            } else if j == 17 {
                assert(t[12].key@.len() != t[17].key@.len());
            }
        } else if i == 13 {
            if j == 14 {
                assert(t[13].key@.len() != t[14].key@.len());
            } else if j == 15 {
                assert(t[13].key@.len() != t[15].key@.len());
            } else if j == 16 {
                assert(t[13].key@[11] != t[16].key@[11]);
            } else if j == 17 {
                assert(t[13].key@.len() != t[17].key@.len());
            }
        } else if i == 14 {
            if j == 15 {
                assert(t[14].key@.len() != t[15].key@.len());
            } else if j == 16 {
                assert(t[14].key@.len() != t[16].key@.len());
            } else if j == 17 {
                assert(t[14].key@.len() != t[17].key@.len());
            }
        } else if i == 15 {
            if j == 16 {
                assert(t[15].key@.len() != t[16].key@.len());
            } else if j == 17 {
                assert(t[15].key@.len() != t[17].key@.len());
            }
        } else if i == 16 {
            if j == 17 {
                assert(t[16].key@.len() != t[17].key@.len());
            }
        }
    }
}

/// No two settings of `desktop` share a key: each pair differs in length or in some character.
proof fn lemma_keys_differ_in_desktop()
    ensures
        forall|i: int, j: int|
            18 <= i < j < 29 ==> (#[trigger] table()[i]).key@ != (#[trigger] table()[j]).key@,
{
    let t = table();
    reveal_strlit("desktop.snap_to_grid");
    reveal_strlit("desktop.output");
    reveal_strlit("desktop.open");
    reveal_strlit("desktop.terminal");
    reveal_strlit("desktop.metrics.icon");
    reveal_strlit("desktop.metrics.cell_width");
    reveal_strlit("desktop.metrics.cell_height");
    reveal_strlit("desktop.metrics.gap");
    reveal_strlit("desktop.metrics.margin");
    reveal_strlit("desktop.appearance.palette");
    reveal_strlit("desktop.appearance.icon_theme");
    assert forall|i: int, j: int| 18 <= i < j < 29 implies (#[trigger] t[i]).key@ != (
    #[trigger] t[j]).key@ by {
        if i == 18 {
            if j == 19 {
                assert(t[18].key@.len() != t[19].key@.len());
            } else if j == 20 {
                assert(t[18].key@.len() != t[20].key@.len());
            } else if j == 21 {
                assert(t[18].key@.len() != t[21].key@.len());
            } else if j == 22 {
                assert(t[18].key@[8] != t[22].key@[8]);
            } else if j == 23 {
                assert(t[18].key@.len() != t[23].key@.len());
            } else if j == 24 {
                assert(t[18].key@.len() != t[24].key@.len());
            } else if j == 25 {
                assert(t[18].key@.len() != t[25].key@.len());
            } else if j == 26 {
                assert(t[18].key@.len() != t[26].key@.len());
            } else if j == 27 {
                assert(t[18].key@.len() != t[27].key@.len());
            } else if j == 28 {
                assert(t[18].key@.len() != t[28].key@.len());
            }
        } else if i == 19 {
            if j == 20 {
                assert(t[19].key@.len() != t[20].key@.len());
            } else if j == 21 {
                assert(t[19].key@.len() != t[21].key@.len());
            } else if j == 22 {
                assert(t[19].key@.len() != t[22].key@.len());
            } else if j == 23 {
                assert(t[19].key@.len() != t[23].key@.len());
            } else if j == 24 {
                assert(t[19].key@.len() != t[24].key@.len());
            } else if j == 25 {
                assert(t[19].key@.len() != t[25].key@.len());
            } else if j == 26 {
                assert(t[19].key@.len() != t[26].key@.len());
            } else if j == 27 {
                assert(t[19].key@.len() != t[27].key@.len());
            } else if j == 28 {
                assert(t[19].key@.len() != t[28].key@.len());
            }
        } else if i == 20 {
            if j == 21 {
                assert(t[20].key@.len() != t[21].key@.len());
            } else if j == 22 {
                assert(t[20].key@.len() != t[22].key@.len());
            } else if j == 23 {
                assert(t[20].key@.len() != t[23].key@.len());
            } else if j == 24 {
                assert(t[20].key@.len() != t[24].key@.len());
            } else if j == 25 {
                assert(t[20].key@.len() != t[25].key@.len());
            } else if j == 26 {
                assert(t[20].key@.len() != t[26].key@.len());
            } else if j == 27 {
                assert(t[20].key@.len() != t[27].key@.len());
            } else if j == 28 {
                assert(t[20].key@.len() != t[28].key@.len());
            }
        } else if i == 21 {
            if j == 22 {
                assert(t[21].key@.len() != t[22].key@.len());
            } else if j == 23 {
                assert(t[21].key@.len() != t[23].key@.len());
            } else if j == 24 {
                assert(t[21].key@.len() != t[24].key@.len());
            } else if j == 25 {
                assert(t[21].key@.len() != t[25].key@.len());
            } else if j == 26 {
                assert(t[21].key@.len() != t[26].key@.len());
            } else if j == 27 {
                assert(t[21].key@.len() != t[27].key@.len());
            } else if j == 28 {
                assert(t[21].key@.len() != t[28].key@.len());
            }
        } else if i == 22 {
            if j == 23 {
                assert(t[22].key@.len() != t[23].key@.len());
            } else if j == 24 {
                assert(t[22].key@.len() != t[24].key@.len());
            } else if j == 25 {
                assert(t[22].key@.len() != t[25].key@.len());
            } else if j == 26 {
                assert(t[22].key@.len() != t[26].key@.len());
            } else if j == 27 {
                assert(t[22].key@.len() != t[27].key@.len());
            } else if j == 28 {
                assert(t[22].key@.len() != t[28].key@.len());
            }
        } else if i == 23 {
            if j == 24 {
                assert(t[23].key@.len() != t[24].key@.len());
            } else if j == 25 {
                assert(t[23].key@.len() != t[25].key@.len());
            } else if j == 26 {
                assert(t[23].key@.len() != t[26].key@.len());
            } else if j == 27 {
                assert(t[23].key@[8] != t[27].key@[8]);
            } else if j == 28 {
                assert(t[23].key@.len() != t[28].key@.len());
            }
        } else if i == 24 {
            if j == 25 {
                assert(t[24].key@.len() != t[25].key@.len());
            } else if j == 26 {
                assert(t[24].key@.len() != t[26].key@.len());
            } else if j == 27 {
                assert(t[24].key@.len() != t[27].key@.len());
            } else if j == 28 {
                assert(t[24].key@.len() != t[28].key@.len());
            }
        } else if i == 25 {
            if j == 26 {
                assert(t[25].key@.len() != t[26].key@.len());
            } else if j == 27 {
                assert(t[25].key@.len() != t[27].key@.len());
            } else if j == 28 {
                assert(t[25].key@.len() != t[28].key@.len());
            }
        } else if i == 26 {
            if j == 27 {
                assert(t[26].key@.len() != t[27].key@.len());
            } else if j == 28 {
                assert(t[26].key@.len() != t[28].key@.len());
            }
        } else if i == 27 {
            if j == 28 {
                assert(t[27].key@.len() != t[28].key@.len());
            }
        }
    }
}

/// No two settings of `idle` share a key: each pair differs in length or in some character.
proof fn lemma_keys_differ_in_idle()
    ensures
        forall|i: int, j: int|
            29 <= i < j < 44 ==> (#[trigger] table()[i]).key@ != (#[trigger] table()[j]).key@,
{
    let t = table();
    reveal_strlit("idle.lock.command");
    reveal_strlit("idle.before_sleep.lock");
    reveal_strlit("idle.before_sleep.blank");
    reveal_strlit("idle.before_sleep.command");
    reveal_strlit("idle.before_sleep.timeout_secs");
    reveal_strlit("idle.gamepad.enable");
    reveal_strlit("idle.gamepad.deadzone");
    reveal_strlit("idle.gamepad.min_interval_ms");
    reveal_strlit("idle.gamepad.allow");
    reveal_strlit("idle.gamepad.deny");
    reveal_strlit("idle.gamepad.devices");
    reveal_strlit("idle.dbus.screensaver");
    reveal_strlit("idle.dbus.power_management");
    reveal_strlit("idle.dbus.logind");
    reveal_strlit("idle.dbus.replace");
    assert forall|i: int, j: int| 29 <= i < j < 44 implies (#[trigger] t[i]).key@ != (
    #[trigger] t[j]).key@ by {
        if i == 29 {
            if j == 30 {
                assert(t[29].key@.len() != t[30].key@.len());
            } else if j == 31 {
                assert(t[29].key@.len() != t[31].key@.len());
            } else if j == 32 {
                assert(t[29].key@.len() != t[32].key@.len());
            } else if j == 33 {
                assert(t[29].key@.len() != t[33].key@.len());
            } else if j == 34 {
                assert(t[29].key@.len() != t[34].key@.len());
            } else if j == 35 {
                assert(t[29].key@.len() != t[35].key@.len());
            } else if j == 36 {
                assert(t[29].key@.len() != t[36].key@.len());
            } else if j == 37 {
                assert(t[29].key@.len() != t[37].key@.len());
            } else if j == 38 {
                assert(t[29].key@[5] != t[38].key@[5]);
            } else if j == 39 {
                assert(t[29].key@.len() != t[39].key@.len());
            } else if j == 40 {
                assert(t[29].key@.len() != t[40].key@.len());
            } else if j == 41 {
                assert(t[29].key@.len() != t[41].key@.len());
            } else if j == 42 {
                assert(t[29].key@.len() != t[42].key@.len());
            } else if j == 43 {
                assert(t[29].key@[5] != t[43].key@[5]);
            }
        } else if i == 30 {
            if j == 31 {
                assert(t[30].key@.len() != t[31].key@.len());
            } else if j == 32 {
                assert(t[30].key@.len() != t[32].key@.len());
            } else if j == 33 {
                assert(t[30].key@.len() != t[33].key@.len());
            } else if j == 34 {
                assert(t[30].key@.len() != t[34].key@.len());
            } else if j == 35 {
                assert(t[30].key@.len() != t[35].key@.len());
            } else if j == 36 {
                assert(t[30].key@.len() != t[36].key@.len());
            } else if j == 37 {
                assert(t[30].key@.len() != t[37].key@.len());
            } else if j == 38 {
                assert(t[30].key@.len() != t[38].key@.len());
            } else if j == 39 {
                assert(t[30].key@.len() != t[39].key@.len());
            } else if j == 40 {
                assert(t[30].key@.len() != t[40].key@.len());
            } else if j == 41 {
                assert(t[30].key@.len() != t[41].key@.len());
            } else if j == 42 {
                assert(t[30].key@.len() != t[42].key@.len());
            } else if j == 43 {
                assert(t[30].key@.len() != t[43].key@.len());
            }
        } else if i == 31 {
            if j == 32 {
                assert(t[31].key@.len() != t[32].key@.len());
            } else if j == 33 {
                assert(t[31].key@.len() != t[33].key@.len());
            } else if j == 34 {
                assert(t[31].key@.len() != t[34].key@.len());
            } else if j == 35 {
                assert(t[31].key@.len() != t[35].key@.len());
            } else if j == 36 {
                assert(t[31].key@.len() != t[36].key@.len());
            } else if j == 37 {
                assert(t[31].key@.len() != t[37].key@.len());
            } else if j == 38 {
                assert(t[31].key@.len() != t[38].key@.len());
            } else if j == 39 {
                assert(t[31].key@.len() != t[39].key@.len());
            } else if j == 40 {
                assert(t[31].key@.len() != t[40].key@.len());
            } else if j == 41 {
                assert(t[31].key@.len() != t[41].key@.len());
            } else if j == 42 {
                assert(t[31].key@.len() != t[42].key@.len());
            } else if j == 43 {
                assert(t[31].key@.len() != t[43].key@.len());
            }
        } else if i == 32 {
            if j == 33 {
                assert(t[32].key@.len() != t[33].key@.len());
            } else if j == 34 {
                assert(t[32].key@.len() != t[34].key@.len());
            } else if j == 35 {
                assert(t[32].key@.len() != t[35].key@.len());
            } else if j == 36 {
                assert(t[32].key@.len() != t[36].key@.len());
            } else if j == 37 {
                assert(t[32].key@.len() != t[37].key@.len());
            } else if j == 38 {
                assert(t[32].key@.len() != t[38].key@.len());
            } else if j == 39 {
                assert(t[32].key@.len() != t[39].key@.len());
            } else if j == 40 {
                assert(t[32].key@.len() != t[40].key@.len());
            } else if j == 41 {
                assert(t[32].key@.len() != t[41].key@.len());
            } else if j == 42 {
                assert(t[32].key@.len() != t[42].key@.len());
            } else if j == 43 {
                assert(t[32].key@.len() != t[43].key@.len());
            }
        } else if i == 33 {
            if j == 34 {
                assert(t[33].key@.len() != t[34].key@.len());
            } else if j == 35 {
                assert(t[33].key@.len() != t[35].key@.len());
            } else if j == 36 {
                assert(t[33].key@.len() != t[36].key@.len());
            } else if j == 37 {
                assert(t[33].key@.len() != t[37].key@.len());
            } else if j == 38 {
                assert(t[33].key@.len() != t[38].key@.len());
            } else if j == 39 {
                assert(t[33].key@.len() != t[39].key@.len());
            } else if j == 40 {
                assert(t[33].key@.len() != t[40].key@.len());
            } else if j == 41 {
                assert(t[33].key@.len() != t[41].key@.len());
            } else if j == 42 {
                assert(t[33].key@.len() != t[42].key@.len());
            } else if j == 43 {
                assert(t[33].key@.len() != t[43].key@.len());
            }
        } else if i == 34 {
            if j == 35 {
                assert(t[34].key@.len() != t[35].key@.len());
            } else if j == 36 {
                assert(t[34].key@.len() != t[36].key@.len());
            } else if j == 37 {
                assert(t[34].key@.len() != t[37].key@.len());
            } else if j == 38 {
                assert(t[34].key@.len() != t[38].key@.len());
            } else if j == 39 {
                assert(t[34].key@.len() != t[39].key@.len());
            } else if j == 40 {
                assert(t[34].key@.len() != t[40].key@.len());
            } else if j == 41 {
                assert(t[34].key@.len() != t[41].key@.len());
            } else if j == 42 {
                assert(t[34].key@.len() != t[42].key@.len());
            } else if j == 43 {
                assert(t[34].key@.len() != t[43].key@.len());
            }
        } else if i == 35 {
            if j == 36 {
                assert(t[35].key@.len() != t[36].key@.len());
            } else if j == 37 {
                assert(t[35].key@.len() != t[37].key@.len());
            } else if j == 38 {
                assert(t[35].key@.len() != t[38].key@.len());
            } else if j == 39 {
                assert(t[35].key@.len() != t[39].key@.len());
            } else if j == 40 {
                assert(t[35].key@[5] != t[40].key@[5]);
            } else if j == 41 {
                assert(t[35].key@.len() != t[41].key@.len());
            } else if j == 42 {
                assert(t[35].key@.len() != t[42].key@.len());
            } else if j == 43 {
                assert(t[35].key@.len() != t[43].key@.len());
            }
        } else if i == 36 {
            if j == 37 {
                assert(t[36].key@.len() != t[37].key@.len());
            } else if j == 38 {
                assert(t[36].key@.len() != t[38].key@.len());
            } else if j == 39 {
                assert(t[36].key@.len() != t[39].key@.len());
            } else if j == 40 {
                assert(t[36].key@.len() != t[40].key@.len());
            } else if j == 41 {
                assert(t[36].key@.len() != t[41].key@.len());
            } else if j == 42 {
                assert(t[36].key@.len() != t[42].key@.len());
            } else if j == 43 {
                assert(t[36].key@.len() != t[43].key@.len());
            }
        } else if i == 37 {
            if j == 38 {
                assert(t[37].key@.len() != t[38].key@.len());
            } else if j == 39 {
                assert(t[37].key@.len() != t[39].key@.len());
            } else if j == 40 {
                assert(t[37].key@.len() != t[40].key@.len());
            } else if j == 41 {
                assert(t[37].key@.len() != t[41].key@.len());
            } else if j == 42 {
                assert(t[37].key@.len() != t[42].key@.len());
            } else if j == 43 {
                assert(t[37].key@.len() != t[43].key@.len());
            }
        } else if i == 38 {
            if j == 39 {
                assert(t[38].key@.len() != t[39].key@.len());
            } else if j == 40 {
                assert(t[38].key@.len() != t[40].key@.len());
            } else if j == 41 {
                assert(t[38].key@.len() != t[41].key@.len());
            } else if j == 42 {
                assert(t[38].key@.len() != t[42].key@.len());
            } else if j == 43 {
                assert(t[38].key@[5] != t[43].key@[5]);
            }
        } else if i == 39 {
            if j == 40 {
                assert(t[39].key@.len() != t[40].key@.len());
            } else if j == 41 {
                assert(t[39].key@.len() != t[41].key@.len());
            } else if j == 42 {
                assert(t[39].key@.len() != t[42].key@.len());
            } else if j == 43 {
                assert(t[39].key@.len() != t[43].key@.len());
            }
        } else if i == 40 {
            if j == 41 {
                assert(t[40].key@.len() != t[41].key@.len());
            } else if j == 42 {
                assert(t[40].key@.len() != t[42].key@.len());
            } else if j == 43 {
                assert(t[40].key@.len() != t[43].key@.len());
            }
        } else if i == 41 {
            if j == 42 {
                assert(t[41].key@.len() != t[42].key@.len());
            } else if j == 43 {
                assert(t[41].key@.len() != t[43].key@.len());
            }
        } else if i == 42 {
            if j == 43 {
                assert(t[42].key@.len() != t[43].key@.len());
            }
        }
    }
}

/// No two settings of `screenshot` share a key: each pair differs in length or in some character.
proof fn lemma_keys_differ_in_screenshot()
    ensures
        forall|i: int, j: int|
            45 <= i < j < 50 ==> (#[trigger] table()[i]).key@ != (#[trigger] table()[j]).key@,
{
    let t = table();
    reveal_strlit("screenshot.save.dir");
    reveal_strlit("screenshot.save.filename");
    reveal_strlit("screenshot.capture.cursor");
    reveal_strlit("screenshot.appearance.palette");
    reveal_strlit("screenshot.appearance.dim");
    assert forall|i: int, j: int| 45 <= i < j < 50 implies (#[trigger] t[i]).key@ != (
    #[trigger] t[j]).key@ by {
        if i == 45 {
            if j == 46 {
                assert(t[45].key@.len() != t[46].key@.len());
            } else if j == 47 {
                assert(t[45].key@.len() != t[47].key@.len());
            } else if j == 48 {
                assert(t[45].key@.len() != t[48].key@.len());
            } else if j == 49 {
                assert(t[45].key@.len() != t[49].key@.len());
            }
        } else if i == 46 {
            if j == 47 {
                assert(t[46].key@.len() != t[47].key@.len());
            } else if j == 48 {
                assert(t[46].key@.len() != t[48].key@.len());
            } else if j == 49 {
                assert(t[46].key@.len() != t[49].key@.len());
            }
        } else if i == 47 {
            if j == 48 {
                assert(t[47].key@.len() != t[48].key@.len());
            } else if j == 49 {
                assert(t[47].key@[11] != t[49].key@[11]);
            }
        } else if i == 48 {
            if j == 49 {
                assert(t[48].key@.len() != t[49].key@.len());
            }
        }
    }
}

/// No two settings of `tray` share a key: each pair differs in length or in some character.
proof fn lemma_keys_differ_in_tray()
    ensures
        forall|i: int, j: int|
            51 <= i < j < 63 ==> (#[trigger] table()[i]).key@ != (#[trigger] table()[j]).key@,
{
    let t = table();
    reveal_strlit("tray.output");
    reveal_strlit("tray.anchor");
    reveal_strlit("tray.orientation");
    reveal_strlit("tray.show_passive");
    reveal_strlit("tray.hide_when_empty");
    reveal_strlit("tray.appearance.palette");
    reveal_strlit("tray.appearance.icon_theme");
    reveal_strlit("tray.metrics.icon");
    reveal_strlit("tray.metrics.cell");
    reveal_strlit("tray.metrics.gap");
    reveal_strlit("tray.metrics.margin");
    reveal_strlit("tray.metrics.wrap_at");
    assert forall|i: int, j: int| 51 <= i < j < 63 implies (#[trigger] t[i]).key@ != (
    #[trigger] t[j]).key@ by {
        if i == 51 {
            if j == 52 {
                assert(t[51].key@[5] != t[52].key@[5]);
            } else if j == 53 {
                assert(t[51].key@.len() != t[53].key@.len());
            } else if j == 54 {
                assert(t[51].key@.len() != t[54].key@.len());
            } else if j == 55 {
                assert(t[51].key@.len() != t[55].key@.len());
            } else if j == 56 {
                assert(t[51].key@.len() != t[56].key@.len());
            } else if j == 57 {
                assert(t[51].key@.len() != t[57].key@.len());
            } else if j == 58 {
                assert(t[51].key@.len() != t[58].key@.len());
            } else if j == 59 {
                assert(t[51].key@.len() != t[59].key@.len());
            } else if j == 60 {
                assert(t[51].key@.len() != t[60].key@.len());
            } else if j == 61 {
                assert(t[51].key@.len() != t[61].key@.len());
            } else if j == 62 {
                assert(t[51].key@.len() != t[62].key@.len());
            }
        } else if i == 52 {
            if j == 53 {
                assert(t[52].key@.len() != t[53].key@.len());
            } else if j == 54 {
                assert(t[52].key@.len() != t[54].key@.len());
            } else if j == 55 {
                assert(t[52].key@.len() != t[55].key@.len());
            } else if j == 56 {
                assert(t[52].key@.len() != t[56].key@.len());
            } else if j == 57 {
                assert(t[52].key@.len() != t[57].key@.len());
            } else if j == 58 {
                assert(t[52].key@.len() != t[58].key@.len());
            } else if j == 59 {
                assert(t[52].key@.len() != t[59].key@.len());
            } else if j == 60 {
                assert(t[52].key@.len() != t[60].key@.len());
            } else if j == 61 {
                assert(t[52].key@.len() != t[61].key@.len());
            } else if j == 62 {
                assert(t[52].key@.len() != t[62].key@.len());
            }
        } else if i == 53 {
            if j == 54 {
                assert(t[53].key@.len() != t[54].key@.len());
            } else if j == 55 {
                assert(t[53].key@.len() != t[55].key@.len());
            } else if j == 56 {
                assert(t[53].key@.len() != t[56].key@.len());
            } else if j == 57 {
                assert(t[53].key@.len() != t[57].key@.len());
            } else if j == 58 {
                assert(t[53].key@.len() != t[58].key@.len());
            } else if j == 59 {
                assert(t[53].key@.len() != t[59].key@.len());
            } else if j == 60 {
                assert(t[53].key@[5] != t[60].key@[5]);
            } else if j == 61 {
                assert(t[53].key@.len() != t[61].key@.len());
            } else if j == 62 {
                assert(t[53].key@.len() != t[62].key@.len());
            }
        } else if i == 54 {
            if j == 55 {
                assert(t[54].key@.len() != t[55].key@.len());
            } else if j == 56 {
                assert(t[54].key@.len() != t[56].key@.len());
            } else if j == 57 {
                assert(t[54].key@.len() != t[57].key@.len());
            } else if j == 58 {
                assert(t[54].key@[5] != t[58].key@[5]);
            } else if j == 59 {
                assert(t[54].key@[5] != t[59].key@[5]);
            } else if j == 60 {
                assert(t[54].key@.len() != t[60].key@.len());
            } else if j == 61 {
                assert(t[54].key@.len() != t[61].key@.len());
            } else if j == 62 {
                assert(t[54].key@.len() != t[62].key@.len());
            }
        } else if i == 55 {
            if j == 56 {
                assert(t[55].key@.len() != t[56].key@.len());
            } else if j == 57 {
                assert(t[55].key@.len() != t[57].key@.len());
            } else if j == 58 {
                assert(t[55].key@.len() != t[58].key@.len());
            } else if j == 59 {
                assert(t[55].key@.len() != t[59].key@.len());
            } else if j == 60 {
                assert(t[55].key@.len() != t[60].key@.len());
            } else if j == 61 {
                assert(t[55].key@.len() != t[61].key@.len());
            } else if j == 62 {
                assert(t[55].key@[5] != t[62].key@[5]);
            }
        } else if i == 56 {
            if j == 57 {
                assert(t[56].key@.len() != t[57].key@.len());
            } else if j == 58 {
                assert(t[56].key@.len() != t[58].key@.len());
            } else if j == 59 {
                assert(t[56].key@.len() != t[59].key@.len());
            } else if j == 60 {
                assert(t[56].key@.len() != t[60].key@.len());
            } else if j == 61 {
                assert(t[56].key@.len() != t[61].key@.len());
            } else if j == 62 {
                assert(t[56].key@.len() != t[62].key@.len());
            }
        } else if i == 57 {
            if j == 58 {
                assert(t[57].key@.len() != t[58].key@.len());
            } else if j == 59 {
                assert(t[57].key@.len() != t[59].key@.len());
            } else if j == 60 {
                assert(t[57].key@.len() != t[60].key@.len());
            } else if j == 61 {
                assert(t[57].key@.len() != t[61].key@.len());
            } else if j == 62 {
                assert(t[57].key@.len() != t[62].key@.len());
            }
        } else if i == 58 {
            if j == 59 {
                assert(t[58].key@[13] != t[59].key@[13]);
            } else if j == 60 {
                assert(t[58].key@.len() != t[60].key@.len());
            } else if j == 61 {
                assert(t[58].key@.len() != t[61].key@.len());
            } else if j == 62 {
                assert(t[58].key@.len() != t[62].key@.len());
            }
        } else if i == 59 {
            if j == 60 {
                assert(t[59].key@.len() != t[60].key@.len());
            } else if j == 61 {
                assert(t[59].key@.len() != t[61].key@.len());
            } else if j == 62 {
                assert(t[59].key@.len() != t[62].key@.len());
            }
        } else if i == 60 {
            if j == 61 {
                assert(t[60].key@.len() != t[61].key@.len());
            } else if j == 62 {
                assert(t[60].key@.len() != t[62].key@.len());
            }
        } else if i == 61 {
            if j == 62 {
                assert(t[61].key@.len() != t[62].key@.len());
            }
        }
    }
}

/// The first two characters of each file's namespace, which tell the files apart.
pub open spec fn namespace_mark(file: File) -> (char, char) {
    (spec_namespace(file)[0], spec_namespace(file)[1])
}

/// No two files' namespaces begin with the same two characters.
proof fn lemma_namespace_marks()
    ensures
        forall|f: File| #[trigger] spec_namespace(f).len() >= 2,
        forall|f: File, g: File| f != g ==> #[trigger] namespace_mark(f) != #[trigger] namespace_mark(g),
{
    reveal_strlit("background");
    reveal_strlit("compositor");
    reveal_strlit("desktop");
    reveal_strlit("idle");
    reveal_strlit("portal");
    reveal_strlit("screenshot");
    reveal_strlit("session");
    reveal_strlit("tray");
}

/// No two settings share a key, so a key names one setting: settings in different files differ
/// in their namespace, and settings in one file differ somewhere in their own part.
pub proof fn law_keys_are_unique()
    ensures
        forall|i: int, j: int|
            0 <= i < j < table().len() ==> (#[trigger] table()[i]).key@ != (#[trigger] table()[j]).key@,
{
    let t = table();
    law_keys_are_namespace_and_path();
    lemma_namespace_marks();
    lemma_files_in_runs();
    lemma_keys_differ_in_background();
    lemma_keys_differ_in_compositor();
    lemma_keys_differ_in_desktop();
    lemma_keys_differ_in_idle();
    lemma_keys_differ_in_screenshot();
    lemma_keys_differ_in_tray();
    assert forall|i: int, j: int| 0 <= i < j < t.len() implies (#[trigger] t[i]).key@ != (
    #[trigger] t[j]).key@ by {
        if t[i].file != t[j].file {
            let (a, b) = (t[i].key@, t[j].key@);
            assert(a == key_for(t[i]) && b == key_for(t[j]));
            assert(a[0] == spec_namespace(t[i].file)[0] && a[1] == spec_namespace(t[i].file)[1]);
            assert(b[0] == spec_namespace(t[j].file)[0] && b[1] == spec_namespace(t[j].file)[1]);
            assert(namespace_mark(t[i].file) != namespace_mark(t[j].file));
        }
    }
}

} // verus!
