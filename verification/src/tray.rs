//! What the tray shows: whether anybody is still publishing, which trouble
//! there is, the reading in the icon, and the tip beside it.
//!
//! A dead engine leaves the shared block mapped and full of its last reading.
//! Nothing about the block says the writer is gone, so only its sequence
//! advancing proves that somebody is still writing.

use vstd::prelude::*;

use crate::config::{
    display_temp, shown_temp, suffix_of, unit_suffix, Config, ConfigView, Stored,
};
use crate::curve::Curve;
use crate::ec::{FAN_BIOS, FAN_LEVEL_MAX};
use crate::ipc::{
    name_of, status_words, trouble_tip, words_for, Shared, SharedView, MODE_MANUAL, MODE_SMART,
    SENSOR_ABSENT, SENSOR_COUNT, SINGLE_FAN_HINT,
};
use crate::pawnio_status::{Missing, MissingView};
use crate::prompt::Area;
use crate::profiles::{names, names_of, next_profile, CANNOT_READ, CANNOT_SAVE};
use crate::service::NOT_INSTALLED;
use crate::text::{decimal, decimal_nat, push_hex_register, push_i32, push_u64, texts, units, wide};
use crate::theme::{COOL_HEX, HOT_AT, HOT_HEX, IDLE_HEX, WARM_AT, WARM_HEX};

verus! {

/// Refreshes with no new sample before the engine is treated as gone, when the
/// engine has not said how often it publishes.
pub const STALE_REFRESHES: u32 = 6;

/// Ceiling on the interval the engine claims, matching the largest the
/// settings allow for a standby poll.
pub const MAX_PUBLISH_SECS: u16 = 120;

/// Missed intervals before calling it stale, on top of the interval itself.
pub const STALE_MARGIN: u32 = 3;

/// The service manager's code for a service that is running.
pub const SERVICE_RUNNING: i32 = 4;

/// The size a tip's field has, in sixteen bit units.
pub const TIP_LEN: usize = 128;

/// The smallest an icon is drawn.
pub const SMALLEST_ICON: i32 = 16;

/// Whether to suggest the Single fan setting: the writes are declined, the
/// second fan has never once reported a speed, and the setting is not already
/// on.
pub fn suggest_single_fan(
    write_declined: bool,
    fan2_ever_spun: bool,
    already_single: bool,
) -> (r: bool)
    ensures
        r == (write_declined && !fan2_ever_spun && !already_single),
{
    write_declined && !fan2_ever_spun && !already_single
}

/// The dot's color for a thermal band.
pub open spec fn color_of_band(band: u8) -> u32 {
    if band == 0 {
        COOL_HEX
    } else if band == 1 {
        WARM_HEX
    } else if band == 2 {
        HOT_HEX
    } else {
        IDLE_HEX
    }
}

/// The dot's color for a thermal band, matching the icons and the graph.
pub fn band_color(band: u8) -> (r: u32)
    ensures
        r == color_of_band(band),
{
    if band == 0 {
        COOL_HEX
    } else if band == 1 {
        WARM_HEX
    } else if band == 2 {
        HOT_HEX
    } else {
        IDLE_HEX
    }
}

/// The band of a temperature, numbered from the coolest.
pub open spec fn thermal_band(temp: i8) -> u8 {
    if temp >= HOT_AT {
        2
    } else if temp >= WARM_AT {
        1
    } else {
        0
    }
}

/// The band that says there is nothing to show.
pub const IDLE_BAND: u8 = 3;

/// What is known about who is publishing.
#[derive(Debug, Clone, Copy, PartialEq, Eq, Structural)]
pub struct Watching {
    /// The last sequence seen.
    pub last_seq: u32,
    /// How many refreshes it has sat there.
    pub stale_refreshes: u32,
    /// Whether the second fan has reported a speed in this session.
    pub fan2_ever_spun: bool,
}

/// How many refreshes a sequence may sit still. Clamped, because the interval
/// comes from a section any process can write, and an absurd one would
/// suppress the check for hours.
pub open spec fn patience(publish_secs: u16) -> int {
    if publish_secs == 0 {
        STALE_REFRESHES as int
    } else if publish_secs > MAX_PUBLISH_SECS {
        MAX_PUBLISH_SECS + STALE_MARGIN
    } else {
        publish_secs + STALE_MARGIN
    }
}

/// A count one higher, as far as a count goes.
pub open spec fn one_more(n: u32) -> u32 {
    if n == u32::MAX {
        n
    } else {
        (n + 1) as u32
    }
}

impl Watching {
    /// The count after a look at a sequence.
    pub open spec fn counted(self, seq: u32) -> Watching {
        if seq == self.last_seq {
            Watching { stale_refreshes: one_more(self.stale_refreshes), ..self }
        } else {
            Watching { last_seq: seq, stale_refreshes: 0, ..self }
        }
    }

    /// Whether the writer of a block is to be believed alive, after a look.
    pub open spec fn alive(self, s: SharedView) -> bool {
        self.counted(s.state_seq).stale_refreshes < patience(s.publish_secs)
    }

    /// What is known after a look at a block. The second fan's proof is noted
    /// on every live sample, healthy or not, because it can arrive long before
    /// the trouble does.
    pub open spec fn looked(self, s: SharedView) -> Watching {
        let counted = self.counted(s.state_seq);
        if self.alive(s) && s.fan_rpm[1] > 0 {
            Watching { fan2_ever_spun: true, ..counted }
        } else {
            counted
        }
    }

    /// Looks at a block, and says whether its writer is to be believed alive.
    pub fn look(&mut self, s: &Shared) -> (r: bool)
        ensures
            *final(self) == old(self).looked(s@),
            r == old(self).alive(s@),
    {
        if s.state_seq == self.last_seq {
            if self.stale_refreshes < u32::MAX {
                self.stale_refreshes = self.stale_refreshes + 1;
            }
        } else {
            self.last_seq = s.state_seq;
            self.stale_refreshes = 0;
        }
        let limit: u32 = if s.publish_secs == 0 {
            STALE_REFRESHES
        } else if s.publish_secs > MAX_PUBLISH_SECS {
            MAX_PUBLISH_SECS as u32 + STALE_MARGIN
        } else {
            s.publish_secs as u32 + STALE_MARGIN
        };
        let alive = self.stale_refreshes < limit;
        if alive && s.fan_rpm[1] > 0 {
            self.fan2_ever_spun = true;
        }
        alive
    }
}

/// The settings the tray shows by.
#[derive(Debug, Clone, Copy, PartialEq, Eq, Structural)]
pub struct Prefs {
    pub fahrenheit: bool,
    pub log_enabled: bool,
    pub tray_numbers: bool,
    /// Which sensor the icon reports, or the hottest when unset.
    pub tray_sensor: Option<u8>,
    pub single_fan: bool,
}

impl Prefs {
    /// Whether the nominated sensor, if any, is one there is.
    pub open spec fn well_formed(self) -> bool {
        self.tray_sensor matches Some(i) ==> i < SENSOR_COUNT
    }
}

/// The settings the tray shows by, out of all of them.
pub open spec fn prefs_of(c: ConfigView) -> Prefs {
    Prefs {
        fahrenheit: c.fahrenheit,
        log_enabled: c.log_enabled,
        tray_numbers: c.tray_numbers,
        tray_sensor: c.tray_sensor,
        single_fan: c.single_fan,
    }
}

/// A reading of the block as degrees.
pub open spec fn degrees(raw: i16) -> i8 {
    raw as i8
}

/// The reading the icon reports and the sensor it came from: the nominated
/// one if it is reading, and otherwise the hottest, which has none.
pub open spec fn reported(sensor: Option<u8>, s: SharedView) -> (i8, Option<int>) {
    match sensor {
        Some(i) => if s.sensors[i as int] != SENSOR_ABSENT {
            (degrees(s.sensors[i as int]), Some(i as int))
        } else {
            (s.hottest_temp, None)
        },
        None => (s.hottest_temp, None),
    }
}

/// What a mode is called.
pub open spec fn mode_word(mode: u8) -> Seq<char> {
    if mode == MODE_SMART {
        "Smart"@
    } else if mode == MODE_MANUAL {
        "Manual"@
    } else {
        "BIOS"@
    }
}

/// What a mode is called.
pub fn mode_name(mode: u8) -> (r: &'static str)
    ensures
        r@ == mode_word(mode),
{
    if mode == MODE_SMART {
        "Smart"
    } else if mode == MODE_MANUAL {
        "Manual"
    } else {
        "BIOS"
    }
}

/// What is said of the fans. A machine with one reports nothing for the
/// second, and a zero there would read like a broken fan.
pub open spec fn speeds(rpm: Seq<u16>) -> Seq<char> {
    if rpm[1] > 0 {
        decimal_nat(rpm[0] as nat) + " / "@ + decimal_nat(rpm[1] as nat) + " rpm"@
    } else {
        decimal_nat(rpm[0] as nat) + " rpm"@
    }
}

/// Which sensor a reading came from, in words.
pub open spec fn source_word(sensors: Seq<Seq<char>>, source: Option<int>) -> Seq<char> {
    match source {
        Some(i) => if i < sensors.len() {
            sensors[i]
        } else {
            "sensor"@
        },
        None => "hottest"@,
    }
}

/// Which step of the curve is in force, in words.
pub open spec fn step_word(fan_ctrl: u8) -> Seq<char> {
    if fan_ctrl == FAN_BIOS {
        "firmware"@
    } else if fan_ctrl <= FAN_LEVEL_MAX {
        "level "@ + decimal_nat(fan_ctrl as nat)
    } else {
        crate::text::hex_register(fan_ctrl)
    }
}

/// What the tray shows.
#[derive(Debug)]
pub struct Picture {
    pub band: u8,
    pub tip: String,
    /// The number for the icon, when there is one to show.
    pub reading: Option<i32>,
}

/// What the tray shows, mathematically.
pub ghost struct PictureView {
    pub band: u8,
    pub tip: Seq<char>,
    pub reading: Option<i32>,
}

impl View for Picture {
    type V = PictureView;

    open spec fn view(&self) -> PictureView {
        PictureView { band: self.band, tip: self.tip@, reading: self.reading }
    }
}

/// Whether the Single fan setting is suggested.
pub open spec fn hinted(prefs: Prefs, watching: Watching, s: SharedView) -> bool {
    s.fan_write_declined != 0 && !watching.fan2_ever_spun && !prefs.single_fan
}

/// The tip beside a healthy reading.
pub open spec fn healthy_tip(prefs: Prefs, sensors: Seq<Seq<char>>, s: SharedView) -> Seq<char> {
    let (temp, source) = reported(prefs.tray_sensor, s);
    "Yamato  "@ + decimal(shown_temp(temp as int, prefs.fahrenheit)) + suffix_of(prefs.fahrenheit)
        + " ("@ + source_word(sensors, source) + ")\n"@ + mode_word(s.mode) + "  "@ + step_word(
        s.fan_ctrl,
    ) + "  "@ + name_of(s.profile) + "\n"@ + speeds(s.fan_rpm)
}

/// What is shown of a live engine. Which trouble there is, and not merely that
/// there is some; and where there is a hint to give, it takes the detail's
/// line.
pub open spec fn pictured(
    prefs: Prefs,
    watching: Watching,
    sensors: Seq<Seq<char>>,
    s: SharedView,
) -> PictureView {
    match words_for(s.status, s.fault != 0) {
        Some((headline, detail)) => PictureView {
            band: IDLE_BAND,
            tip: trouble_tip(
                headline,
                if hinted(prefs, watching, s) {
                    SINGLE_FAN_HINT@
                } else {
                    detail
                },
            ),
            reading: None,
        },
        None => {
            let temp = reported(prefs.tray_sensor, s).0;
            PictureView {
                band: thermal_band(temp),
                tip: healthy_tip(prefs, sensors, s),
                reading: Some(shown_temp(temp as int, prefs.fahrenheit) as i32),
            }
        },
    }
}

fn push_speeds(tip: &mut String, rpm: &[u16; 2])
    ensures
        final(tip)@ == old(tip)@ + speeds(rpm@),
{
    push_u64(tip, rpm[0] as u64);
    if rpm[1] > 0 {
        tip.append(" / ");
        push_u64(tip, rpm[1] as u64);
    }
    tip.append(" rpm");
    proof {
        assert(tip@ =~= old(tip)@ + speeds(rpm@));
    }
}

fn push_step(tip: &mut String, fan_ctrl: u8)
    ensures
        final(tip)@ == old(tip)@ + step_word(fan_ctrl),
{
    if fan_ctrl == FAN_BIOS {
        tip.append("firmware");
    } else if fan_ctrl <= FAN_LEVEL_MAX {
        tip.append("level ");
        push_u64(tip, fan_ctrl as u64);
        proof {
            assert(tip@ =~= old(tip)@ + step_word(fan_ctrl));
        }
    } else {
        push_hex_register(tip, fan_ctrl);
    }
}

fn picture(prefs: &Prefs, watching: &Watching, sensors: &Vec<String>, s: &Shared) -> (r: Picture)
    requires
        prefs.well_formed(),
    ensures
        r@ == pictured(*prefs, *watching, texts(sensors@), s@),
{
    match status_words(s.status, s.fault != 0) {
        Some((headline, detail)) => {
            let hint = suggest_single_fan(
                s.fan_write_declined != 0,
                watching.fan2_ever_spun,
                prefs.single_fan,
            );
            let mut tip = "Yamato\n".to_owned();
            tip.append(headline);
            tip.append("\n");
            tip.append(
                if hint {
                    SINGLE_FAN_HINT
                } else {
                    detail
                },
            );
            Picture { band: IDLE_BAND, tip, reading: None }
        },
        None => {
            let (temp, source): (i8, Option<u8>) = match prefs.tray_sensor {
                Some(i) => {
                    let raw = s.sensors[i as usize];
                    if raw != SENSOR_ABSENT {
                        (
                            #[verifier::truncate]
                            (raw as i8),
                            Some(i),
                        )
                    } else {
                        (s.hottest_temp, None)
                    }
                },
                None => (s.hottest_temp, None),
            };
            let band = if temp >= HOT_AT {
                2
            } else if temp >= WARM_AT {
                1
            } else {
                0
            };
            let shown = display_temp(temp, prefs.fahrenheit);
            let mut tip = "Yamato  ".to_owned();
            push_i32(&mut tip, shown);
            tip.append(unit_suffix(prefs.fahrenheit));
            tip.append(" (");
            match source {
                Some(i) => if (i as usize) < sensors.len() {
                    proof {
                        assert(texts(sensors@)[i as int] == sensors@[i as int]@);
                    }
                    tip.append(sensors[i as usize].as_str());
                } else {
                    tip.append("sensor");
                },
                None => tip.append("hottest"),
            }
            tip.append(")\n");
            tip.append(mode_name(s.mode));
            tip.append("  ");
            push_step(&mut tip, s.fan_ctrl);
            tip.append("  ");
            tip.append(s.read_profile().as_str());
            tip.append("\n");
            push_speeds(&mut tip, &s.fan_rpm);
            Picture { band, tip, reading: Some(shown) }
        },
    }
}

/// Why nobody is controlling the fan. What is missing outranks what the
/// service manager thinks: a missing driver explains the service state, and
/// telling somebody to start a service that will die again is a loop with no
/// way out.
pub open spec fn absence(missing: MissingView, state: i32) -> Seq<char> {
    match missing {
        MissingView::Nothing => if state == NOT_INSTALLED {
            "No engine installed. Right-click to install the service."@
        } else if state != SERVICE_RUNNING {
            "The service is stopped. Right-click to start it."@
        } else {
            "Starting up, or the engine cannot reach the controller."@
        },
        _ => missing.brief(),
    }
}

/// What is shown when there is no engine.
pub open spec fn pictured_alone(missing: MissingView, state: i32) -> PictureView {
    PictureView {
        band: IDLE_BAND,
        tip: "Yamato\nNot controlling the fan\n"@ + absence(missing, state),
        reading: None,
    }
}

/// What is shown when there is no engine, given what is missing and what the
/// service manager says.
pub fn alone(missing: &Missing, state: i32) -> (r: Picture)
    ensures
        r@ == pictured_alone(missing@, state),
{
    let why = match missing {
        Missing::Nothing => if state == NOT_INSTALLED {
            "No engine installed. Right-click to install the service."
        } else if state != SERVICE_RUNNING {
            "The service is stopped. Right-click to start it."
        } else {
            "Starting up, or the engine cannot reach the controller."
        },
        _ => missing.short(),
    };
    let mut tip = "Yamato\nNot controlling the fan\n".to_owned();
    tip.append(why);
    Picture { band: IDLE_BAND, tip, reading: None }
}

/// A tip as its field holds it: cut one short of the field, with a zero
/// behind it.
pub open spec fn clipped(tip: Seq<char>) -> Seq<u16> {
    let all = units(tip).push(0);
    if all.len() < TIP_LEN {
        all.push(0)
    } else {
        all.take(TIP_LEN - 1).push(0)
    }
}

/// A tip as its field holds it. The shell reads the field until a zero, so a
/// long profile name and a long status line together must not run off its end.
pub fn tip_field(tip: &str) -> (r: Vec<u16>)
    ensures
        r@ == clipped(tip@),
{
    let all = wide(tip);
    let kept: usize = if all.len() < TIP_LEN {
        all.len()
    } else {
        TIP_LEN - 1
    };
    let mut r: Vec<u16> = Vec::new();
    let mut i: usize = 0;
    while i < kept
        invariant
            i <= kept <= all@.len(),
            r@ == all@.take(i as int),
        decreases kept - i,
    {
        r.push(all[i]);
        i += 1;
        proof {
            assert(all@.take(i - 1).push(all@[i - 1]) =~= all@.take(i as int));
        }
    }
    proof {
        assert(all@.take(all@.len() as int) =~= all@);
    }
    r.push(0);
    r
}

/// What an icon is a picture of: the size it was drawn for, the thermal band,
/// and the number in it if there is one.
#[derive(Debug, Clone, Copy, PartialEq, Eq, Structural)]
pub struct Drawn {
    pub size: i32,
    pub band: u8,
    pub number: Option<i32>,
}

/// The dots per inch an icon is drawn for: the larger of the window's and the
/// system's, because a window with no area does not reliably belong to a
/// display. Nothing when neither is known.
pub fn icon_dpi(window: u32, system: u32) -> (r: Option<u32>)
    ensures
        r == (if window == 0 && system == 0 {
            None
        } else if window > system {
            Some(window)
        } else {
            Some(system)
        }),
{
    let dpi = if window > system {
        window
    } else {
        system
    };
    if dpi == 0 {
        None
    } else {
        Some(dpi)
    }
}

/// The size an icon is drawn at, given what the system asks for.
pub fn icon_size(asked: i32) -> (r: i32)
    ensures
        r == (if asked < SMALLEST_ICON {
            SMALLEST_ICON
        } else {
            asked
        }),
{
    if asked < SMALLEST_ICON {
        SMALLEST_ICON
    } else {
        asked
    }
}

/// The whole sample, for the settings window.
#[derive(Debug)]
pub struct Readout {
    pub sensors: [Option<i8>; SENSOR_COUNT],
    pub hottest: Option<(usize, i8)>,
    pub fan_rpm: [u16; 2],
    pub mode: &'static str,
    pub mode_raw: u8,
    pub fan_ctrl: u8,
    pub profile: String,
    pub fault: bool,
    pub status: u8,
    pub single_fan_hint: bool,
}

/// The whole sample, mathematically.
#[verifier::ext_equal]
pub ghost struct ReadoutView {
    pub sensors: Seq<Option<i8>>,
    pub hottest: Option<(usize, i8)>,
    pub fan_rpm: Seq<u16>,
    pub mode: Seq<char>,
    pub mode_raw: u8,
    pub fan_ctrl: u8,
    pub profile: Seq<char>,
    pub fault: bool,
    pub status: u8,
    pub single_fan_hint: bool,
}

impl View for Readout {
    type V = ReadoutView;

    open spec fn view(&self) -> ReadoutView {
        ReadoutView {
            sensors: self.sensors@,
            hottest: self.hottest,
            fan_rpm: self.fan_rpm@,
            mode: self.mode@,
            mode_raw: self.mode_raw,
            fan_ctrl: self.fan_ctrl,
            profile: self.profile@,
            fault: self.fault,
            status: self.status,
            single_fan_hint: self.single_fan_hint,
        }
    }
}

/// A sensor's reading, unless it is absent.
pub open spec fn present(raw: i16) -> Option<i8> {
    if raw == SENSOR_ABSENT {
        None
    } else {
        Some(degrees(raw))
    }
}

/// What the settings window is told of a live engine.
pub open spec fn readout_of(prefs: Prefs, watching: Watching, s: SharedView) -> ReadoutView {
    ReadoutView {
        sensors: s.sensors.map_values(|raw: i16| present(raw)),
        hottest: if s.hottest_temp != 0 || s.fault == 0 {
            Some((s.hottest_index as usize, s.hottest_temp))
        } else {
            None
        },
        fan_rpm: s.fan_rpm,
        mode: mode_word(s.mode),
        mode_raw: s.mode,
        fan_ctrl: s.fan_ctrl,
        profile: name_of(s.profile),
        fault: s.fault != 0,
        status: s.status,
        single_fan_hint: hinted(prefs, watching, s),
    }
}

/// What the settings window is told when there is no engine.
pub open spec fn readout_of_nothing() -> ReadoutView {
    ReadoutView {
        sensors: Seq::new(SENSOR_COUNT as nat, |i: int| None::<i8>),
        hottest: None,
        fan_rpm: Seq::new(2, |i: int| 0u16),
        mode: ""@,
        mode_raw: 0,
        fan_ctrl: 0,
        profile: ""@,
        fault: true,
        status: 0,
        single_fan_hint: false,
    }
}

/// What the tray keeps between one message and the next.
#[derive(Debug)]
pub struct Tray {
    pub watching: Watching,
    pub prefs: Prefs,
    /// What the icon on screen is a picture of. `None` means nothing has been
    /// drawn yet, and is also how a settings change asks for a redraw.
    pub drawn: Option<Drawn>,
    /// The names the menu was last built from.
    pub profiles: Vec<String>,
    /// Where the settings window was, and how large, when it was last closed.
    pub settings_rect: Option<(i32, i32, i32, i32)>,
}

/// What the tray keeps, mathematically.
#[verifier::ext_equal]
pub ghost struct TrayView {
    pub watching: Watching,
    pub prefs: Prefs,
    pub drawn: Option<Drawn>,
    pub profiles: Seq<Seq<char>>,
    pub settings_rect: Option<(i32, i32, i32, i32)>,
}

impl View for Tray {
    type V = TrayView;

    open spec fn view(&self) -> TrayView {
        TrayView {
            watching: self.watching,
            prefs: self.prefs,
            drawn: self.drawn,
            profiles: texts(self.profiles@),
            settings_rect: self.settings_rect,
        }
    }
}

impl TrayView {
    /// What a read of the settings file makes of it. A file that cannot be
    /// read leaves what is here alone: the last thing known to be true is
    /// better than nothing at all.
    pub open spec fn reloaded(self, file: Stored) -> TrayView {
        match file.gives() {
            Ok(c) => TrayView { prefs: prefs_of(c), profiles: names_of(c.profiles), ..self },
            Err(_) => self,
        }
    }

    /// What a change to a setting makes of it, once it has been saved.
    pub open spec fn adopting(self, setting: Setting, c: ConfigView) -> TrayView {
        match setting {
            Setting::Units => TrayView {
                prefs: Prefs { fahrenheit: c.fahrenheit, ..self.prefs },
                drawn: None,
                ..self
            },
            Setting::Numbers => TrayView {
                prefs: Prefs { tray_numbers: c.tray_numbers, ..self.prefs },
                drawn: None,
                ..self
            },
            Setting::Logging => TrayView {
                prefs: Prefs { log_enabled: c.log_enabled, ..self.prefs },
                ..self
            },
            Setting::Sensor(choice) => TrayView {
                prefs: Prefs { tray_sensor: choice, ..self.prefs },
                ..self
            },
        }
    }

    /// What an icon of a size would now be a picture of.
    pub open spec fn wanted(self, size: i32, picture: PictureView) -> Drawn {
        Drawn {
            size,
            band: picture.band,
            number: if self.prefs.tray_numbers {
                picture.reading
            } else {
                None
            },
        }
    }
}

/// A setting the menu changes.
#[derive(Debug, Clone, Copy, PartialEq, Eq, Structural)]
pub enum Setting {
    Units,
    Numbers,
    Logging,
    /// Which reading the icon reports.
    Sensor(Option<u8>),
}

/// Settings with one changed.
pub open spec fn with_setting(c: ConfigView, setting: Setting) -> ConfigView {
    match setting {
        Setting::Units => ConfigView { fahrenheit: !c.fahrenheit, ..c },
        Setting::Numbers => ConfigView { tray_numbers: !c.tray_numbers, ..c },
        Setting::Logging => ConfigView { log_enabled: !c.log_enabled, ..c },
        Setting::Sensor(choice) => ConfigView { tray_sensor: choice, ..c },
    }
}

/// The settings file with one setting changed, ready to be written back; or
/// what to say about a file that could not be read, if anything. The toggles
/// say nothing.
pub fn change_setting(setting: Setting, file: Stored) -> (r: Result<Config, Option<&'static str>>)
    ensures
        match file.gives() {
            Ok(c) => r matches Ok(config) && config@ == with_setting(c, setting),
            Err(_) => if setting is Sensor {
                r matches Err(Some(words)) && words@ == CANNOT_READ@
            } else {
                r == Err::<Config, Option<&'static str>>(None)
            },
        },
{
    match Config::load(file) {
        Ok(loaded) => {
            let mut config = loaded;
            match setting {
                Setting::Units => {
                    config.fahrenheit = !config.fahrenheit;
                },
                Setting::Numbers => {
                    config.tray_numbers = !config.tray_numbers;
                },
                Setting::Logging => {
                    config.log_enabled = !config.log_enabled;
                },
                Setting::Sensor(choice) => {
                    config.tray_sensor = choice;
                },
            }
            Ok(config)
        },
        Err(_) => match setting {
            Setting::Sensor(_) => Err(Some(CANNOT_READ)),
            _ => Err(None),
        },
    }
}

/// What follows a change to a setting.
#[derive(Debug)]
pub enum Followed {
    /// The icon and the tip have to be brought up to date now.
    Refresh,
    /// Nothing more.
    Nothing,
    /// Somebody has to be told.
    Say(&'static str),
}

/// How a settings window stands.
#[derive(Debug, Clone, Copy, PartialEq, Eq, Structural)]
pub struct WindowSeen {
    /// Whether the handle still names a window.
    pub exists: bool,
    pub visible: bool,
    pub iconic: bool,
    /// Where it is, when that could be asked.
    pub at: Option<Area>,
}

/// What opening or toggling the settings window comes to.
#[derive(Debug, Clone, Copy, PartialEq, Eq, Structural)]
pub enum SettingsStep {
    /// It is there: bring it back from the taskbar and to the front.
    Restore,
    /// It is there: show it and bring it to the front.
    Show,
    /// There is none: build one, over the remains of an old one.
    Build,
    /// It is on screen: close it.
    Close,
}

/// What opening the settings window comes to.
pub open spec fn opening(window: Option<WindowSeen>) -> SettingsStep {
    match window {
        Some(w) => if !w.exists {
            SettingsStep::Build
        } else if w.iconic {
            SettingsStep::Restore
        } else {
            SettingsStep::Show
        },
        None => SettingsStep::Build,
    }
}

/// The size of a rectangle, after its place.
pub open spec fn placed(at: Area) -> (int, int, int, int) {
    (at.left as int, at.top as int, at.right - at.left, at.bottom - at.top)
}

/// The curve and the name the settings window opens on. Settings that cannot
/// be read are taken to be those of a fresh install.
pub open spec fn opened_on(file: Stored) -> ConfigView {
    match file.gives() {
        Ok(c) => c,
        Err(_) => crate::config::fresh(),
    }
}

/// The curve and the name of the profile the settings window opens on, so the
/// window knows which profile it is editing; nothing when that profile's curve
/// is not one.
pub fn settings_to_edit(file: Stored) -> (r: Option<(Curve, String)>)
    ensures
        ({
            let c = opened_on(file);
            match c.active().fault() {
                None => r matches Some((curve, name)) && curve@ == crate::config::curve_points(
                    c.active().points,
                ) && name@ == c.active_profile,
                Some(_) => r is None,
            }
        }),
{
    proof {
        crate::config::what_loads_has_a_profile(file);
    }
    let config = match Config::load(file) {
        Ok(c) => c,
        Err(_) => Config::default(),
    };
    match config.active_curve() {
        Ok(curve) => Some((curve, config.active_profile)),
        Err(_) => None,
    }
}

impl Tray {
    /// A tray that has seen nothing yet.
    pub fn new() -> (r: Self)
        ensures
            r@ == (TrayView {
                watching: Watching { last_seq: 0, stale_refreshes: 0, fan2_ever_spun: false },
                prefs: Prefs {
                    fahrenheit: false,
                    log_enabled: false,
                    tray_numbers: true,
                    tray_sensor: None,
                    single_fan: false,
                },
                drawn: None,
                profiles: Seq::empty(),
                settings_rect: None,
            }),
            r@.prefs.well_formed(),
    {
        let r = Tray {
            watching: Watching { last_seq: 0, stale_refreshes: 0, fan2_ever_spun: false },
            prefs: Prefs {
                fahrenheit: false,
                log_enabled: false,
                tray_numbers: true,
                tray_sensor: None,
                single_fan: false,
            },
            drawn: None,
            profiles: Vec::new(),
            settings_rect: None,
        };
        proof {
            assert(texts(r.profiles@) =~= Seq::empty());
        }
        r
    }

    /// Re-reads what the menu and the tip show from the settings file.
    pub fn reload_settings(&mut self, file: Stored)
        ensures
            final(self)@ == old(self)@.reloaded(file),
            old(self)@.prefs.well_formed() ==> final(self)@.prefs.well_formed(),
    {
        proof {
            crate::config::what_loads_names_a_sensor(file);
        }
        match Config::load(file) {
            Ok(config) => {
                self.prefs = Prefs {
                    fahrenheit: config.fahrenheit,
                    log_enabled: config.log_enabled,
                    tray_numbers: config.tray_numbers,
                    tray_sensor: config.tray_sensor,
                    single_fan: config.single_fan,
                };
                self.profiles = names(&config.profiles);
            },
            Err(_) => {},
        }
    }

    /// Takes a list of names to build the menu from.
    pub fn set_profiles(&mut self, profiles: Vec<String>)
        ensures
            final(self)@ == (TrayView { profiles: texts(profiles@), ..old(self)@ }),
    {
        self.profiles = profiles;
    }

    /// Reads the engine's latest sample, and says what to show of it.
    ///
    /// Liveness is asked about before the sample is read, so a stalled writer
    /// is never mistaken for a cool machine. Nothing comes back when there is
    /// no engine, or none that is still writing: the block has to be let go
    /// of, so the next refresh can find a new one.
    pub fn refresh(&mut self, shared: Option<&Shared>, sensors: &Vec<String>) -> (r: Option<
        Picture,
    >)
        requires
            old(self)@.prefs.well_formed(),
        ensures
            match shared {
                Some(s) => {
                    let watching = old(self)@.watching.looked(s@);
                    &&& final(self)@ == (TrayView { watching, ..old(self)@ })
                    &&& if old(self)@.watching.alive(s@) {
                        r matches Some(p) && p@ == pictured(
                            old(self)@.prefs,
                            watching,
                            texts(sensors@),
                            s@,
                        )
                    } else {
                        r is None
                    }
                },
                None => final(self)@ == old(self)@ && r is None,
            },
    {
        match shared {
            Some(s) => {
                if self.watching.look(s) {
                    Some(picture(&self.prefs, &self.watching, sensors, s))
                } else {
                    None
                }
            },
            None => None,
        }
    }

    /// What the icon has to be redrawn as, if it would look different. An icon
    /// redrawn every second is a handle created and destroyed every second, to
    /// no effect anyone can see.
    pub fn redraw(&self, size: i32, picture: &Picture) -> (r: Option<Drawn>)
        ensures
            r == (if self@.drawn == Some(self@.wanted(size, picture@)) {
                None
            } else {
                Some(self@.wanted(size, picture@))
            }),
    {
        let wanted = Drawn {
            size,
            band: picture.band,
            number: if self.prefs.tray_numbers {
                picture.reading
            } else {
                None
            },
        };
        match self.drawn {
            Some(drawn) => if drawn == wanted {
                None
            } else {
                Some(wanted)
            },
            None => Some(wanted),
        }
    }

    /// Remembers what the icon on screen is a picture of.
    pub fn drew(&mut self, drawn: Drawn)
        ensures
            final(self)@ == (TrayView { drawn: Some(drawn), ..old(self)@ }),
    {
        self.drawn = Some(drawn);
    }

    /// What the settings window is told.
    pub fn readout(&self, shared: Option<&Shared>) -> (r: Readout)
        ensures
            r@ == match shared {
                Some(s) => readout_of(self@.prefs, self@.watching, s@),
                None => readout_of_nothing(),
            },
    {
        match shared {
            None => {
                let r = Readout {
                    sensors: [None; SENSOR_COUNT],
                    hottest: None,
                    fan_rpm: [0, 0],
                    mode: "",
                    mode_raw: 0,
                    fan_ctrl: 0,
                    profile: "".to_owned(),
                    fault: true,
                    status: 0,
                    single_fan_hint: false,
                };
                proof {
                    assert(r@ =~= readout_of_nothing());
                }
                r
            },
            Some(s) => {
                let mut sensors: [Option<i8>; SENSOR_COUNT] = [None; SENSOR_COUNT];
                let mut i: usize = 0;
                while i < SENSOR_COUNT
                    invariant
                        i <= SENSOR_COUNT,
                        sensors@.len() == SENSOR_COUNT,
                        forall|k: int|
                            0 <= k < i ==> (#[trigger] sensors@[k]) == present(s.sensors@[k]),
                    decreases SENSOR_COUNT - i,
                {
                    let raw = s.sensors[i];
                    sensors[i] = if raw == SENSOR_ABSENT {
                        None
                    } else {
                        Some(
                            #[verifier::truncate]
                            (raw as i8),
                        )
                    };
                    i += 1;
                }
                let r = Readout {
                    sensors,
                    hottest: if s.hottest_temp != 0 || s.fault == 0 {
                        Some((s.hottest_index as usize, s.hottest_temp))
                    } else {
                        None
                    },
                    fan_rpm: s.fan_rpm,
                    mode: mode_name(s.mode),
                    mode_raw: s.mode,
                    fan_ctrl: s.fan_ctrl,
                    profile: s.read_profile(),
                    fault: s.fault != 0,
                    status: s.status,
                    single_fan_hint: suggest_single_fan(
                        s.fan_write_declined != 0,
                        self.watching.fan2_ever_spun,
                        self.prefs.single_fan,
                    ),
                };
                proof {
                    assert(r@ =~= readout_of(self@.prefs, self@.watching, s@));
                }
                r
            },
        }
    }

    /// What follows a change to a setting being written, or not.
    pub fn setting_saved(&mut self, setting: Setting, config: &Config, saved: bool) -> (r: Followed)
        ensures
            final(self)@ == if saved {
                old(self)@.adopting(setting, config@)
            } else {
                old(self)@
            },
            if saved {
                if setting is Logging {
                    r is Nothing
                } else {
                    r is Refresh
                }
            } else if setting is Sensor {
                r matches Followed::Say(words) && words@ == CANNOT_SAVE@
            } else {
                r is Nothing
            },
    {
        if !saved {
            return match setting {
                Setting::Sensor(_) => Followed::Say(CANNOT_SAVE),
                _ => Followed::Nothing,
            };
        }
        match setting {
            Setting::Units => {
                self.prefs.fahrenheit = config.fahrenheit;
                self.drawn = None;
                Followed::Refresh
            },
            Setting::Numbers => {
                self.prefs.tray_numbers = config.tray_numbers;
                self.drawn = None;
                Followed::Refresh
            },
            Setting::Logging => {
                self.prefs.log_enabled = config.log_enabled;
                Followed::Nothing
            },
            Setting::Sensor(choice) => {
                self.prefs.tray_sensor = choice;
                Followed::Refresh
            },
        }
    }

    /// The next profile in the file's list, to switch to. Read from the file,
    /// because the list kept here is only refreshed when the menu opens; and
    /// since the menu is built from that list, it may as well be current.
    pub fn cycle_profile(&mut self, file: Stored) -> (r: Option<String>)
        ensures
            match file.gives() {
                Ok(c) => match crate::profiles::following(c) {
                    Some(name) => r matches Some(n) && n@ == name && final(self)@ == (TrayView {
                        profiles: names_of(c.profiles),
                        ..old(self)@
                    }),
                    None => r is None && final(self)@ == old(self)@,
                },
                Err(_) => r is None && final(self)@ == old(self)@,
            },
    {
        match Config::load(file) {
            Ok(config) => match next_profile(&config) {
                Some(name) => {
                    self.profiles = names(&config.profiles);
                    Some(name)
                },
                None => None,
            },
            Err(_) => None,
        }
    }

    /// What opening the settings window comes to. A destroyed window leaves a
    /// handle that no longer names anything, and building a fresh one is the
    /// honest recovery.
    pub fn open_settings(&self, window: Option<WindowSeen>) -> (r: SettingsStep)
        ensures
            r == opening(window),
    {
        match window {
            Some(w) => if !w.exists {
                SettingsStep::Build
            } else if w.iconic {
                SettingsStep::Restore
            } else {
                SettingsStep::Show
            },
            None => SettingsStep::Build,
        }
    }

    /// Toggles the settings window: closes it if it is on screen, noting where
    /// it was, and opens it if it is not.
    pub fn toggle_settings(&mut self, window: Option<WindowSeen>) -> (r: SettingsStep)
        requires
            window matches Some(w) ==> (w.at matches Some(at) ==> {
                &&& i32::MIN <= at.right - at.left <= i32::MAX
                &&& i32::MIN <= at.bottom - at.top <= i32::MAX
            }),
        ensures
            match window {
                Some(w) if w.exists && w.visible => {
                    &&& r == SettingsStep::Close
                    &&& match w.at {
                        Some(at) => final(self)@.settings_rect matches Some(rect) && (
                            rect.0 as int,
                            rect.1 as int,
                            rect.2 as int,
                            rect.3 as int,
                        ) == placed(at) && final(self)@ == (TrayView {
                            settings_rect: Some(rect),
                            ..old(self)@
                        }),
                        None => final(self)@ == old(self)@,
                    }
                },
                _ => r == opening(window) && final(self)@ == old(self)@,
            },
    {
        match window {
            Some(w) => {
                if w.exists && w.visible {
                    match w.at {
                        Some(at) => {
                            self.settings_rect = Some(
                                (at.left, at.top, at.right - at.left, at.bottom - at.top),
                            );
                        },
                        None => {},
                    }
                    return SettingsStep::Close;
                }
            },
            None => {},
        }
        self.open_settings(window)
    }
}

/// An engine that goes on writing is never taken for dead.
pub proof fn a_live_engine_is_believed(watching: Watching, s: SharedView)
    requires
        s.state_seq != watching.last_seq,
    ensures
        watching.alive(s),
        watching.looked(s).stale_refreshes == 0,
        watching.looked(s).last_seq == s.state_seq,
{
}

/// An engine that has stopped writing is taken for dead, after no more looks
/// than it has intervals and a margin, whatever interval it claims.
pub proof fn a_dead_engine_is_noticed(watching: Watching, s: SharedView)
    requires
        s.state_seq == watching.last_seq,
    ensures
        watching.looked(s).stale_refreshes == one_more(watching.stale_refreshes),
        watching.stale_refreshes + 1 >= patience(s.publish_secs) ==> !watching.alive(s),
        0 < patience(s.publish_secs) <= MAX_PUBLISH_SECS + STALE_MARGIN,
{
}

/// One revolution of the second fan is proof of it for the rest of the
/// session, and on a machine with such a proof the Single fan setting is never
/// suggested.
pub proof fn two_fans_are_never_talked_out_of_one(
    prefs: Prefs,
    watching: Watching,
    seen: SharedView,
    later: SharedView,
)
    ensures
        watching.fan2_ever_spun ==> watching.looked(seen).fan2_ever_spun,
        watching.alive(seen) && seen.fan_rpm[1] > 0 ==> watching.looked(seen).fan2_ever_spun,
        watching.fan2_ever_spun ==> !hinted(prefs, watching, later),
{
}

/// An engine in trouble shows no reading and no thermal band, and an engine
/// that is healthy shows both.
pub proof fn trouble_shows_no_reading(
    prefs: Prefs,
    watching: Watching,
    sensors: Seq<Seq<char>>,
    s: SharedView,
)
    ensures
        ({
            let p = pictured(prefs, watching, sensors, s);
            &&& p.reading is None <==> words_for(s.status, s.fault != 0) is Some
            &&& p.band == IDLE_BAND <==> words_for(s.status, s.fault != 0) is Some
        }),
{
}

/// The tray reports a nominated sensor only while it is reading; it never
/// blanks the icon.
pub proof fn a_quiet_sensor_gives_way_to_the_hottest(sensor: Option<u8>, s: SharedView)
    ensures
        reported(sensor, s).1 is None ==> reported(sensor, s).0 == s.hottest_temp,
        reported(sensor, s).1 matches Some(i) ==> s.sensors[i] != SENSOR_ABSENT && sensor == Some(
            i as u8,
        ),
{
}

/// An icon that has been drawn is not drawn again until it would look
/// different.
pub proof fn nothing_is_drawn_twice(tray: TrayView, size: i32, picture: PictureView)
    ensures
        ({
            let wanted = tray.wanted(size, picture);
            let after = TrayView { drawn: Some(wanted), ..tray };
            after.drawn == Some(after.wanted(size, picture))
        }),
{
}

/// A tip's field is always closed, and never longer than it may be.
pub proof fn a_tip_is_always_closed(tip: Seq<char>)
    ensures
        0 < clipped(tip).len() <= TIP_LEN,
        clipped(tip).last() == 0,
{
}

/// Changing a setting twice puts it back, except for the choice of a sensor,
/// which is made and not flipped.
pub proof fn a_toggle_toggles(c: ConfigView, setting: Setting)
    ensures
        !(setting is Sensor) ==> with_setting(with_setting(c, setting), setting) == c,
        setting is Sensor ==> with_setting(with_setting(c, setting), setting) == with_setting(
            c,
            setting,
        ),
{
}

/// Whether the icon and the number report this temperature: the number in the
/// unit asked for, and the band cool below 70 degrees Celsius, hot from 85 and
/// warm between.
pub open spec fn shows_temperature(p: PictureView, celsius: i8, fahrenheit: bool) -> bool {
    &&& p.reading == Some(shown_temp(celsius as int, fahrenheit) as i32)
    &&& celsius < 70 ==> p.band == 0
    &&& 70 <= celsius < 85 ==> p.band == 1
    &&& celsius >= 85 ==> p.band == 2
}

/// The tray reports what the engine read. A sample published without trouble
/// shows the sensor that was nominated, where it reported, and otherwise the
/// hottest.
pub proof fn the_tray_reports_what_the_engine_read(
    prefs: Prefs,
    watching: Watching,
    sensors: Seq<Seq<char>>,
    s: SharedView,
    sample: crate::ipc::Sample,
    profile: Seq<char>,
)
    requires
        prefs.well_formed(),
        sample.status == 0,
        !sample.fault,
    ensures
        ({
            let p = pictured(prefs, watching, sensors, s.published(sample, profile));
            &&& prefs.tray_sensor matches Some(i) ==> (sample.sensors@[i as int] matches Some(t)
                ==> shows_temperature(p, t, prefs.fahrenheit))
            &&& prefs.tray_sensor is None ==> (sample.hottest matches Some((_, t))
                ==> shows_temperature(p, t, prefs.fahrenheit))
            &&& prefs.tray_sensor matches Some(i) ==> (sample.sensors@[i as int] is None ==> (
            sample.hottest matches Some((_, t)) ==> shows_temperature(p, t, prefs.fahrenheit)))
        }),
{
}

/// The tip of a healthy engine says everything: the program's name, the
/// temperature with its unit, the sensor it came from in brackets, the mode,
/// the step in force, the profile and the speeds of the fans.
pub proof fn a_healthy_tip_says_everything(
    prefs: Prefs,
    watching: Watching,
    sensors: Seq<Seq<char>>,
    s: SharedView,
)
    requires
        s.status == 0,
        s.fault == 0,
    ensures
        ({
            let tip = pictured(prefs, watching, sensors, s).tip;
            let (temp, source) = reported(prefs.tray_sensor, s);
            &&& crate::text::begins(tip, "Yamato"@)
            &&& crate::text::holds(
                tip,
                decimal(shown_temp(temp as int, prefs.fahrenheit)) + suffix_of(prefs.fahrenheit),
            )
            &&& source is None ==> crate::text::holds(tip, "hottest"@)
            &&& source matches Some(i) ==> (0 <= i < sensors.len() ==> crate::text::holds(
                tip,
                sensors[i],
            ))
            &&& s.mode == 1 ==> crate::text::holds(tip, "Smart"@)
            &&& s.mode == 2 ==> crate::text::holds(tip, "Manual"@)
            &&& s.mode != 1 && s.mode != 2 ==> crate::text::holds(tip, "BIOS"@)
            &&& s.fan_ctrl == 0x80 ==> crate::text::holds(tip, "firmware"@)
            &&& s.fan_ctrl <= 7 ==> crate::text::holds(
                tip,
                "level "@ + decimal_nat(s.fan_ctrl as nat),
            )
            &&& crate::text::holds(tip, name_of(s.profile))
            &&& s.fan_rpm[1] == 0 ==> crate::text::holds(
                tip,
                decimal_nat(s.fan_rpm[0] as nat) + " rpm"@,
            )
            &&& s.fan_rpm[1] > 0 ==> crate::text::holds(
                tip,
                decimal_nat(s.fan_rpm[0] as nat) + " / "@ + decimal_nat(s.fan_rpm[1] as nat)
                    + " rpm"@,
            )
        }),
{
    let (temp, source) = reported(prefs.tray_sensor, s);
    let number = decimal(shown_temp(temp as int, prefs.fahrenheit));
    let unit = suffix_of(prefs.fahrenheit);
    let shown = number + unit;
    let from = source_word(sensors, source);
    let mode = mode_word(s.mode);
    let at = step_word(s.fan_ctrl);
    let profile = name_of(s.profile);
    let a = "Yamato  "@ + number + unit;
    let b = a + " ("@;
    let c = b + from;
    let d = c + ")\n"@;
    let e = d + mode;
    let f = e + "  "@;
    let g = f + at;
    let h = g + "  "@;
    let i = h + profile;
    let j = i + "\n"@;
    let k = j + speeds(s.fan_rpm);
    assert(k == healthy_tip(prefs, sensors, s));
    assert(a =~= "Yamato  "@ + shown);
    crate::text::it_stands_at_the_end("Yamato  "@, shown);
    crate::text::it_still_stands(a, " ("@, shown);
    crate::text::it_stands_at_the_end(b, from);
    crate::text::it_still_stands(b, from, shown);
    crate::text::it_still_stands(c, ")\n"@, shown);
    crate::text::it_still_stands(c, ")\n"@, from);
    crate::text::it_stands_at_the_end(d, mode);
    crate::text::it_still_stands(d, mode, shown);
    crate::text::it_still_stands(d, mode, from);
    crate::text::it_still_stands(e, "  "@, shown);
    crate::text::it_still_stands(e, "  "@, from);
    crate::text::it_still_stands(e, "  "@, mode);
    crate::text::it_stands_at_the_end(f, at);
    crate::text::it_still_stands(f, at, shown);
    crate::text::it_still_stands(f, at, from);
    crate::text::it_still_stands(f, at, mode);
    crate::text::it_still_stands(g, "  "@, shown);
    crate::text::it_still_stands(g, "  "@, from);
    crate::text::it_still_stands(g, "  "@, mode);
    crate::text::it_still_stands(g, "  "@, at);
    crate::text::it_stands_at_the_end(h, profile);
    crate::text::it_still_stands(h, profile, shown);
    crate::text::it_still_stands(h, profile, from);
    crate::text::it_still_stands(h, profile, mode);
    crate::text::it_still_stands(h, profile, at);
    crate::text::it_still_stands(i, "\n"@, shown);
    crate::text::it_still_stands(i, "\n"@, from);
    crate::text::it_still_stands(i, "\n"@, mode);
    crate::text::it_still_stands(i, "\n"@, at);
    crate::text::it_still_stands(i, "\n"@, profile);
    crate::text::it_stands_at_the_end(j, speeds(s.fan_rpm));
    crate::text::it_still_stands(j, speeds(s.fan_rpm), shown);
    crate::text::it_still_stands(j, speeds(s.fan_rpm), from);
    crate::text::it_still_stands(j, speeds(s.fan_rpm), mode);
    crate::text::it_still_stands(j, speeds(s.fan_rpm), at);
    crate::text::it_still_stands(j, speeds(s.fan_rpm), profile);
    reveal_strlit("Yamato  ");
    reveal_strlit("Yamato");
    assert(k.take(6) =~= "Yamato"@);
}

/// The settings window is told what the block holds: each sensor's reading and
/// none for one that is absent, the hottest, the speeds, the mode, the step,
/// the profile and the trouble.
pub proof fn the_window_is_told_what_the_block_holds(
    prefs: Prefs,
    watching: Watching,
    s: SharedView,
    i: int,
)
    requires
        s.sensors.len() == 12,
        0 <= i < 12,
    ensures
        ({
            let r = readout_of(prefs, watching, s);
            &&& r.sensors.len() == 12
            &&& s.sensors[i] == -32768 ==> r.sensors[i] is None
            &&& -128 <= s.sensors[i] <= 127 ==> r.sensors[i] == Some(s.sensors[i] as i8)
            &&& s.fault == 0 || s.hottest_temp != 0 ==> r.hottest == Some(
                (s.hottest_index as usize, s.hottest_temp),
            )
            &&& s.fault != 0 && s.hottest_temp == 0 ==> r.hottest is None
            &&& r.fan_rpm == s.fan_rpm
            &&& s.mode == 1 ==> r.mode == "Smart"@
            &&& s.mode == 2 ==> r.mode == "Manual"@
            &&& s.mode != 1 && s.mode != 2 ==> r.mode == "BIOS"@
            &&& r.mode_raw == s.mode
            &&& r.fan_ctrl == s.fan_ctrl
            &&& r.profile == name_of(s.profile)
            &&& r.fault == (s.fault != 0)
            &&& r.status == s.status
            &&& r.single_fan_hint == (s.fan_write_declined != 0 && !watching.fan2_ever_spun
                && !prefs.single_fan)
        }),
{
}

/// An engine is believed alive while its sequence moves, and once it stands
/// still for as many looks as it has seconds between samples, at most 120, and
/// three more; where it does not say, for six.
pub proof fn a_still_sequence_is_believed_for_so_long(watching: Watching, s: SharedView)
    requires
        watching.stale_refreshes < 1000,
    ensures
        s.state_seq != watching.last_seq ==> watching.alive(s),
        s.state_seq == watching.last_seq ==> (watching.alive(s) <==> watching.stale_refreshes + 1
            < (if s.publish_secs == 0 {
            6
        } else if s.publish_secs <= 120 {
            s.publish_secs + 3
        } else {
            123
        })),
        watching.looked(s).last_seq == s.state_seq,
        watching.looked(s).fan2_ever_spun == (watching.fan2_ever_spun || (watching.alive(s)
            && s.fan_rpm[1] > 0)),
{
}

/// A tip in its field begins as the tip does, as far as 127 units go, and a
/// zero follows.
pub proof fn a_tip_keeps_its_beginning(tip: Seq<char>, i: int)
    requires
        0 <= i < units(tip).len(),
        i < 127,
    ensures
        i < clipped(tip).len(),
        clipped(tip)[i] == units(tip)[i],
        units(tip).len() < 127 ==> clipped(tip)[units(tip).len() as int] == 0,
        units(tip).len() >= 127 ==> clipped(tip).len() == 128 && clipped(tip)[127] == 0,
{
}

/// A change to a setting changes that setting and no other: the units, the
/// numbers and the history are turned about, and the sensor is the one chosen.
pub proof fn a_change_changes_one_setting(c: ConfigView, choice: Option<u8>)
    ensures
        with_setting(c, Setting::Units) == (ConfigView { fahrenheit: !c.fahrenheit, ..c }),
        with_setting(c, Setting::Numbers) == (ConfigView { tray_numbers: !c.tray_numbers, ..c }),
        with_setting(c, Setting::Logging) == (ConfigView { log_enabled: !c.log_enabled, ..c }),
        with_setting(c, Setting::Sensor(choice)) == (ConfigView { tray_sensor: choice, ..c }),
{
}

/// The icon holds the number where numbers are asked for, and only the band
/// where they are not; and a tray that reads its settings shows by them.
pub proof fn an_icon_is_drawn_by_the_settings(
    tray: TrayView,
    size: i32,
    picture: PictureView,
    file: Stored,
)
    ensures
        tray.wanted(size, picture).size == size,
        tray.wanted(size, picture).band == picture.band,
        tray.prefs.tray_numbers ==> tray.wanted(size, picture).number == picture.reading,
        !tray.prefs.tray_numbers ==> tray.wanted(size, picture).number is None,
        file.gives() matches Ok(c) ==> {
            let now = tray.reloaded(file);
            &&& now.prefs.fahrenheit == c.fahrenheit
            &&& now.prefs.log_enabled == c.log_enabled
            &&& now.prefs.tray_numbers == c.tray_numbers
            &&& now.prefs.tray_sensor == c.tray_sensor
            &&& now.prefs.single_fan == c.single_fan
            &&& now.watching == tray.watching && now.drawn == tray.drawn
        },
        file.gives() is Err ==> tray.reloaded(file) == tray,
{
}

/// With no engine the tray says so and why. What is missing is said before
/// anything the service manager knows.
pub proof fn without_an_engine_the_tray_says_why(missing: MissingView, state: i32)
    ensures
        ({
            let shown = pictured_alone(missing, state);
            &&& shown.band == 3 && shown.reading is None
            &&& crate::text::begins(shown.tip, "Yamato\nNot controlling the fan\n"@)
            &&& missing != MissingView::Nothing ==> crate::text::holds(shown.tip, missing.brief())
            &&& missing == MissingView::Nothing && state == -1 ==> crate::text::holds(
                shown.tip,
                "No engine installed. Right-click to install the service."@,
            )
            &&& missing == MissingView::Nothing && state == 4 ==> crate::text::holds(
                shown.tip,
                "Starting up, or the engine cannot reach the controller."@,
            )
            &&& missing == MissingView::Nothing && state != -1 && state != 4 ==> crate::text::holds(
                shown.tip,
                "The service is stopped. Right-click to start it."@,
            )
        }),
{
    let head = "Yamato\nNot controlling the fan\n"@;
    crate::text::it_stands_at_the_end(head, absence(missing, state));
    assert((head + absence(missing, state)).take(head.len() as int) =~= head);
}

/// With no engine the window is told of no sensor and no speed, and that
/// something is wrong.
pub proof fn without_an_engine_there_is_nothing_to_read(i: int)
    requires
        0 <= i < 12,
    ensures
        readout_of_nothing().sensors.len() == 12 && readout_of_nothing().sensors[i] is None,
        readout_of_nothing().hottest is None,
        readout_of_nothing().fan_rpm.len() == 2,
        i < 2 ==> readout_of_nothing().fan_rpm[i] == 0,
        readout_of_nothing().fault && !readout_of_nothing().single_fan_hint,
{
}

/// A setting that was changed is the one the tray takes on, as it was saved.
/// What changes the icon has it drawn again.
pub proof fn a_change_is_taken_on(
    tray: TrayView,
    setting: Setting,
    before: ConfigView,
)
    ensures
        ({
            let saved = with_setting(before, setting);
            let after = tray.adopting(setting, saved);
            &&& after.watching == tray.watching && after.profiles == tray.profiles
                && after.settings_rect == tray.settings_rect
            &&& after.prefs.single_fan == tray.prefs.single_fan
            &&& after.prefs.fahrenheit == if setting == Setting::Units {
                saved.fahrenheit
            } else {
                tray.prefs.fahrenheit
            }
            &&& after.prefs.tray_numbers == if setting == Setting::Numbers {
                saved.tray_numbers
            } else {
                tray.prefs.tray_numbers
            }
            &&& after.prefs.log_enabled == if setting == Setting::Logging {
                saved.log_enabled
            } else {
                tray.prefs.log_enabled
            }
            &&& after.prefs.tray_sensor == if setting is Sensor {
                saved.tray_sensor
            } else {
                tray.prefs.tray_sensor
            }
            &&& setting == Setting::Units || setting == Setting::Numbers ==> after.drawn is None
            &&& setting == Setting::Logging || setting is Sensor ==> after.drawn == tray.drawn
        }),
{
}

/// The settings window is built where there is none, restored where it is
/// minimized and brought forward where it is open.
pub proof fn the_window_is_opened_once(w: WindowSeen)
    ensures
        opening(None) == SettingsStep::Build,
        !w.exists ==> opening(Some(w)) == SettingsStep::Build,
        w.exists && w.iconic ==> opening(Some(w)) == SettingsStep::Restore,
        w.exists && !w.iconic ==> opening(Some(w)) == SettingsStep::Show,
{
}

/// A rectangle is remembered by its corner and its size.
pub proof fn a_rectangle_is_its_corner_and_size(at: Area)
    ensures
        ({
            let (x, y, width, height) = placed(at);
            &&& x == at.left && y == at.top
            &&& x + width == at.right && y + height == at.bottom
        }),
{
}

/// The window opens on the settings there are, and on a fresh install's where
/// they cannot be read.
pub proof fn the_window_opens_on_the_settings(file: Stored)
    ensures
        file.gives() matches Ok(c) ==> opened_on(file) == c,
        file.gives() is Err ==> opened_on(file) == crate::config::fresh(),
{
}

} // verus!
