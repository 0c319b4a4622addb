//! The settings: what they may be, what they start as, and how a file that
//! was stored by another version is brought into shape.

use vstd::prelude::*;

use crate::curve::{
    balanced_points, curve_fault, step, valid_curve, Curve, CurveError, CurvePoint,
};
use crate::ec::{FAN_BIOS, SENSOR_COUNT};
use crate::engine::{Mode, MANUAL_ESCAPE_C, SMART_CEILING_C};
use crate::pawnio::Layout;
use crate::paths::join;
use crate::text::{chars_of, part, push_u64, same, string_of};

verus! {

/// Bumped whenever the shape changes in a way that needs migrating.
pub const SCHEMA_VERSION: u32 = 3;

/// The bounds validation holds these fields to. The tray and the settings
/// window clamp against them before writing, so what is saved is what comes
/// back.
pub const POLL_SECS_MIN: u32 = 1;

pub const POLL_SECS_MAX: u32 = 60;

pub const STANDBY_POLL_SECS_MIN: u32 = 5;

pub const STANDBY_POLL_SECS_MAX: u32 = 120;

pub const LOG_MAX_MB_MIN: u32 = 1;

pub const LOG_MAX_MB_MAX: u32 = 128;

/// Bounds on the temperature that ends a held manual level. Narrow on
/// purpose, and with no way to switch it off.
pub const MANUAL_ESCAPE_MIN: i8 = 60;

pub const MANUAL_ESCAPE_MAX: i8 = 90;

/// Bounds on per-point hysteresis. Holding the fan up for longer is loud but
/// never hot, so it has room; delaying it on a machine that is already
/// heating gets a few degrees and no more.
pub const HYST_DOWN_MAX: i8 = 15;

pub const HYST_UP_MAX: i8 = 5;

/// Why settings could not be read, or not be used.
#[derive(Debug)]
pub enum ConfigError {
    /// The file could not be read or written, and why.
    Io(String),
    /// The file is not JSON of the right shape, and why.
    Parse(String),
    /// A stored curve that no longer satisfies the rules. Reported, not
    /// repaired.
    Curve { profile: String, source: CurveError },
    /// Written by a newer version than this one.
    FromTheFuture { found: u32, supported: u32 },
}

/// Why settings could not be used, mathematically.
pub enum ConfigErrorView {
    Io(Seq<char>),
    Parse(Seq<char>),
    Curve { profile: Seq<char>, source: CurveError },
    FromTheFuture { found: u32, supported: u32 },
}

impl View for ConfigError {
    type V = ConfigErrorView;

    open spec fn view(&self) -> ConfigErrorView {
        match self {
            ConfigError::Io(e) => ConfigErrorView::Io(e@),
            ConfigError::Parse(e) => ConfigErrorView::Parse(e@),
            ConfigError::Curve { profile, source } => ConfigErrorView::Curve {
                profile: profile@,
                source: *source,
            },
            ConfigError::FromTheFuture { found, supported } => ConfigErrorView::FromTheFuture {
                found: *found,
                supported: *supported,
            },
        }
    }
}

impl ConfigErrorView {
    /// The sentence that explains the trouble.
    pub open spec fn words(self) -> Seq<char> {
        match self {
            ConfigErrorView::Io(e) => "could not read or write the settings file: "@ + e,
            ConfigErrorView::Parse(e) => "the settings file is not valid JSON: "@ + e,
            ConfigErrorView::Curve { profile, source } => "profile \""@ + profile
                + "\" has an invalid curve: "@ + source.words(),
            ConfigErrorView::FromTheFuture { found, supported } => "the settings file is version "@
                + crate::text::decimal_nat(found as nat) + ", but this build only understands "@
                + crate::text::decimal_nat(supported as nat)
                + ". Install a newer Yamato, or move the file aside to start fresh."@,
        }
    }
}

impl ConfigError {
    /// The sentence that explains the trouble.
    pub fn to_string(&self) -> (r: String)
        ensures
            r@ == self@.words(),
    {
        match self {
            ConfigError::Io(e) => {
                let mut s = "could not read or write the settings file: ".to_owned();
                s.append(e.as_str());
                s
            },
            ConfigError::Parse(e) => {
                let mut s = "the settings file is not valid JSON: ".to_owned();
                s.append(e.as_str());
                s
            },
            ConfigError::Curve { profile, source } => {
                let mut s = "profile \"".to_owned();
                s.append(profile.as_str());
                s.append("\" has an invalid curve: ");
                s.append(source.to_string().as_str());
                s
            },
            ConfigError::FromTheFuture { found, supported } => {
                let mut s = "the settings file is version ".to_owned();
                push_u64(&mut s, *found as u64);
                s.append(", but this build only understands ");
                push_u64(&mut s, *supported as u64);
                s.append(". Install a newer Yamato, or move the file aside to start fresh.");
                s
            },
        }
    }
}

/// A curve point as stored. Kept apart from [`CurvePoint`] so the stored shape
/// can stay stable while the runtime type changes.
#[derive(Debug, Clone, Copy)]
pub struct StoredPoint {
    pub temp: i8,
    pub level: u8,
    pub hyst_up: i8,
    pub hyst_down: i8,
}

impl StoredPoint {
    /// The step this stores.
    pub open spec fn point(self) -> CurvePoint {
        step(self.temp, self.level, self.hyst_up, self.hyst_down)
    }
}

/// A step as stored.
pub open spec fn stored(p: CurvePoint) -> StoredPoint {
    StoredPoint { temp: p.temp, level: p.level, hyst_up: p.hyst_up, hyst_down: p.hyst_down }
}

/// Steps as stored.
pub open spec fn stored_points(points: Seq<CurvePoint>) -> Seq<StoredPoint> {
    points.map_values(|p: CurvePoint| stored(p))
}

/// The steps a list of stored points stores.
pub open spec fn curve_points(points: Seq<StoredPoint>) -> Seq<CurvePoint> {
    points.map_values(|p: StoredPoint| p.point())
}

impl<'a> From<&'a CurvePoint> for StoredPoint {
    fn from(p: &'a CurvePoint) -> (r: Self) {
        StoredPoint { temp: p.temp, level: p.level, hyst_up: p.hyst_up, hyst_down: p.hyst_down }
    }
}

impl<'a> vstd::std_specs::convert::FromSpecImpl<&'a CurvePoint> for StoredPoint {
    open spec fn obeys_from_spec() -> bool {
        true
    }

    open spec fn from_spec(p: &'a CurvePoint) -> Self {
        stored(*p)
    }
}

impl<'a> From<&'a StoredPoint> for CurvePoint {
    fn from(p: &'a StoredPoint) -> (r: Self) {
        CurvePoint { temp: p.temp, level: p.level, hyst_up: p.hyst_up, hyst_down: p.hyst_down }
    }
}

impl<'a> vstd::std_specs::convert::FromSpecImpl<&'a StoredPoint> for CurvePoint {
    open spec fn obeys_from_spec() -> bool {
        true
    }

    open spec fn from_spec(p: &'a StoredPoint) -> Self {
        p.point()
    }
}

/// The degrees a stored point waits on the way down when it does not say.
pub fn default_hyst_down() -> (r: i8)
    ensures
        r == 4,
{
    4
}

/// A list of points as stored.
fn store(points: &[CurvePoint]) -> (r: Vec<StoredPoint>)
    ensures
        r@ == stored_points(points@),
{
    let mut r: Vec<StoredPoint> = Vec::new();
    let mut i: usize = 0;
    while i < points.len()
        invariant
            i <= points@.len(),
            r@.len() == i,
            forall|k: int| 0 <= k < i ==> (#[trigger] r@[k]) == stored(points@[k]),
        decreases points@.len() - i,
    {
        r.push(StoredPoint::from(&points[i]));
        i += 1;
    }
    r
}

/// A named curve the user can switch between.
#[derive(Debug)]
pub struct Profile {
    pub name: String,
    pub points: Vec<StoredPoint>,
}

/// A named curve, mathematically.
pub struct ProfileView {
    pub name: Seq<char>,
    pub points: Seq<StoredPoint>,
}

impl View for Profile {
    type V = ProfileView;

    open spec fn view(&self) -> ProfileView {
        ProfileView { name: self.name@, points: self.points@ }
    }
}

impl ProfileView {
    /// What is wrong with the stored curve, if anything.
    pub open spec fn fault(self) -> Option<CurveError> {
        curve_fault(curve_points(self.points))
    }
}

impl Clone for Profile {
    fn clone(&self) -> (r: Self)
        ensures
            r@ == self@,
    {
        let mut points: Vec<StoredPoint> = Vec::new();
        let mut i: usize = 0;
        while i < self.points.len()
            invariant
                i <= self.points@.len(),
                points@ == self.points@.take(i as int),
            decreases self.points@.len() - i,
        {
            points.push(self.points[i]);
            i += 1;
            proof {
                assert(self.points@.take(i - 1).push(self.points@[i - 1]) == self.points@.take(
                    i as int,
                ));
            }
        }
        proof {
            assert(self.points@.take(self.points@.len() as int) == self.points@);
        }
        Profile { name: self.name.clone(), points }
    }
}

impl Profile {
    pub fn new(name: &str, curve: &Curve) -> (r: Self)
        ensures
            r@ == (ProfileView { name: name@, points: stored_points(curve@) }),
    {
        Profile { name: name.to_owned(), points: store(curve.points()) }
    }

    /// The curve this profile stores, or what is wrong with it.
    pub fn to_curve(&self) -> (r: Result<Curve, ConfigError>)
        ensures
            match self@.fault() {
                None => r matches Ok(curve) && curve@ == curve_points(self@.points) && valid_curve(
                    curve@,
                ),
                Some(source) => r matches Err(e) && e@ == (ConfigErrorView::Curve {
                    profile: self@.name,
                    source,
                }),
            },
    {
        let mut points: Vec<CurvePoint> = Vec::new();
        let mut i: usize = 0;
        while i < self.points.len()
            invariant
                i <= self.points@.len(),
                points@.len() == i,
                forall|k: int| 0 <= k < i ==> (#[trigger] points@[k]) == self.points@[k].point(),
            decreases self.points@.len() - i,
        {
            points.push(CurvePoint::from(&self.points[i]));
            i += 1;
        }
        proof {
            assert(points@ == curve_points(self@.points));
        }
        match Curve::new(points) {
            Ok(curve) => Ok(curve),
            Err(source) => Err(ConfigError::Curve { profile: self.name.clone(), source }),
        }
    }
}

/// A curve stored and read back is the same curve.
pub proof fn storing_keeps_a_curve(points: Seq<CurvePoint>)
    ensures
        curve_points(stored_points(points)) == points,
{
    assert(curve_points(stored_points(points)) =~= points);
}

/// Which mode to be in when the engine starts.
#[derive(Debug, Clone, Copy, PartialEq, Eq, Structural)]
pub enum StartupMode {
    Bios,
    Smart,
}

/// The mode an engine starts in.
pub open spec fn starting_mode(m: StartupMode) -> Mode {
    match m {
        StartupMode::Bios => Mode::Bios,
        StartupMode::Smart => Mode::Smart,
    }
}

impl From<StartupMode> for Mode {
    fn from(m: StartupMode) -> (r: Self) {
        match m {
            StartupMode::Bios => Mode::Bios,
            StartupMode::Smart => Mode::Smart,
        }
    }
}

impl vstd::std_specs::convert::FromSpecImpl<StartupMode> for Mode {
    open spec fn obeys_from_spec() -> bool {
        true
    }

    open spec fn from_spec(m: StartupMode) -> Self {
        starting_mode(m)
    }
}

/// Where this machine keeps its embedded controller, as stored.
#[derive(Debug, Clone, Copy, PartialEq, Eq, Structural)]
pub enum EcLayout {
    /// The ACPI-specified ports.
    Standard,
    /// Compatibility mode: the 0x1600/0x1604 window.
    Compat,
}

/// The layout a stored one stands for.
pub open spec fn driven(l: EcLayout) -> Layout {
    match l {
        EcLayout::Standard => Layout::Standard,
        EcLayout::Compat => Layout::Alternate,
    }
}

/// How a layout is stored.
pub open spec fn recorded(l: Layout) -> EcLayout {
    match l {
        Layout::Standard => EcLayout::Standard,
        Layout::Alternate => EcLayout::Compat,
    }
}

impl From<EcLayout> for Layout {
    fn from(l: EcLayout) -> (r: Self) {
        match l {
            EcLayout::Standard => Layout::Standard,
            EcLayout::Compat => Layout::Alternate,
        }
    }
}

impl vstd::std_specs::convert::FromSpecImpl<EcLayout> for Layout {
    open spec fn obeys_from_spec() -> bool {
        true
    }

    open spec fn from_spec(l: EcLayout) -> Self {
        driven(l)
    }
}

impl From<Layout> for EcLayout {
    fn from(l: Layout) -> (r: Self) {
        match l {
            Layout::Standard => EcLayout::Standard,
            Layout::Alternate => EcLayout::Compat,
        }
    }
}

impl vstd::std_specs::convert::FromSpecImpl<Layout> for EcLayout {
    open spec fn obeys_from_spec() -> bool {
        true
    }

    open spec fn from_spec(l: Layout) -> Self {
        recorded(l)
    }
}

/// The stored layout and the driven layout agree both ways.
pub proof fn layouts_agree_both_ways(s: EcLayout, d: Layout)
    ensures
        recorded(driven(s)) == s,
        driven(recorded(d)) == d,
{
}

/// Everything the program remembers.
#[derive(Debug)]
pub struct Config {
    pub version: u32,
    /// Seconds between decisions.
    pub poll_secs: u32,
    /// Hand the fan back if no decision happens for this long.
    pub watchdog_secs: u32,
    pub startup_mode: StartupMode,
    pub active_profile: String,
    pub profiles: Vec<Profile>,
    /// Sensors excluded from the hottest reading.
    pub ignored_sensors: Vec<usize>,
    /// Show the settings window on launch instead of going straight to tray.
    pub show_window_on_start: bool,
    /// Seconds between decisions once the machine is believed asleep.
    pub standby_poll_secs: u32,
    /// Show temperatures in Fahrenheit. Display only.
    pub fahrenheit: bool,
    /// Keep a history of what was read and what was asked for.
    pub log_enabled: bool,
    /// How large that history may grow, in megabytes, before it is rotated.
    pub log_max_mb: u32,
    /// The temperature at which a held manual level is abandoned.
    pub manual_escape_c: i8,
    /// Draw the temperature into the tray icon.
    pub tray_numbers: bool,
    /// Which sensor the tray reports, or the hottest one when unset.
    pub tray_sensor: Option<u8>,
    /// This machine has one fan.
    pub single_fan: bool,
    /// Where this machine keeps its embedded controller, once determined.
    pub ec_layout: Option<EcLayout>,
}

/// Everything the program remembers, mathematically.
pub struct ConfigView {
    pub version: u32,
    pub poll_secs: u32,
    pub watchdog_secs: u32,
    pub startup_mode: StartupMode,
    pub active_profile: Seq<char>,
    pub profiles: Seq<ProfileView>,
    pub ignored_sensors: Seq<usize>,
    pub show_window_on_start: bool,
    pub standby_poll_secs: u32,
    pub fahrenheit: bool,
    pub log_enabled: bool,
    pub log_max_mb: u32,
    pub manual_escape_c: i8,
    pub tray_numbers: bool,
    pub tray_sensor: Option<u8>,
    pub single_fan: bool,
    pub ec_layout: Option<EcLayout>,
}

/// Profiles, mathematically.
pub open spec fn profile_views(profiles: Seq<Profile>) -> Seq<ProfileView> {
    profiles.map_values(|p: Profile| p@)
}

impl View for Config {
    type V = ConfigView;

    open spec fn view(&self) -> ConfigView {
        ConfigView {
            version: self.version,
            poll_secs: self.poll_secs,
            watchdog_secs: self.watchdog_secs,
            startup_mode: self.startup_mode,
            active_profile: self.active_profile@,
            profiles: profile_views(self.profiles@),
            ignored_sensors: self.ignored_sensors@,
            show_window_on_start: self.show_window_on_start,
            standby_poll_secs: self.standby_poll_secs,
            fahrenheit: self.fahrenheit,
            log_enabled: self.log_enabled,
            log_max_mb: self.log_max_mb,
            manual_escape_c: self.manual_escape_c,
            tray_numbers: self.tray_numbers,
            tray_sensor: self.tray_sensor,
            single_fan: self.single_fan,
            ec_layout: self.ec_layout,
        }
    }
}

/// Seconds between decisions while asleep, when the file does not say.
pub fn default_standby_poll() -> (r: u32)
    ensures
        r == 30,
{
    30
}

/// The size of the history, when the file does not say.
pub fn default_log_max_mb() -> (r: u32)
    ensures
        r == 8,
{
    8
}

/// The temperature that ends a held level, when the file does not say.
pub fn default_manual_escape() -> (r: i8)
    ensures
        r == MANUAL_ESCAPE_C,
{
    MANUAL_ESCAPE_C
}

/// Whether the tray icon shows a number, when the file does not say.
pub fn default_tray_numbers() -> (r: bool)
    ensures
        r,
{
    true
}

/// The larger of two.
pub open spec fn larger(a: int, b: int) -> int {
    if a > b {
        a
    } else {
        b
    }
}

/// A number held between two bounds.
pub open spec fn between(n: int, low: int, high: int) -> int {
    if n < low {
        low
    } else if n > high {
        high
    } else {
        n
    }
}

fn hold_u32(n: u32, low: u32, high: u32) -> (r: u32)
    requires
        low <= high,
    ensures
        r == between(n as int, low as int, high as int),
{
    if n < low {
        low
    } else if n > high {
        high
    } else {
        n
    }
}

fn hold_i8(n: i8, low: i8, high: i8) -> (r: i8)
    requires
        low <= high,
    ensures
        r == between(n as int, low as int, high as int),
{
    if n < low {
        low
    } else if n > high {
        high
    } else {
        n
    }
}

/// Three times the slower of the two polls, as far as a number goes.
pub open spec fn floor_of(poll_secs: u32, standby_poll_secs: u32) -> int {
    between(3 * larger(poll_secs as int, standby_poll_secs as int), 0, u32::MAX as int)
}

/// The shortest watchdog that will not fire during ordinary running. It has
/// to outlast the slowest poll, and saturates instead of wrapping.
pub fn watchdog_floor(poll_secs: u32, standby_poll_secs: u32) -> (r: u32)
    ensures
        r == floor_of(poll_secs, standby_poll_secs),
{
    let slow: u32 = if poll_secs > standby_poll_secs {
        poll_secs
    } else {
        standby_poll_secs
    };
    if slow > u32::MAX / 3 {
        u32::MAX
    } else {
        slow * 3
    }
}

/// Nine fifths of a number, cut towards zero.
pub open spec fn nine_fifths(n: int) -> int {
    if n >= 0 {
        (n * 9) / 5
    } else {
        -(((-n) * 9) / 5)
    }
}

/// A temperature in the unit it is shown in.
pub open spec fn shown_temp(celsius: int, fahrenheit: bool) -> int {
    if fahrenheit {
        nine_fifths(celsius) + 32
    } else {
        celsius
    }
}

/// A temperature for display, in whichever unit is configured.
pub fn display_temp(celsius: i8, fahrenheit: bool) -> (r: i32)
    ensures
        r == shown_temp(celsius as int, fahrenheit),
{
    if fahrenheit {
        let ninths: i32 = (celsius as i32) * 9;
        if ninths >= 0 {
            ninths / 5 + 32
        } else {
            32 - ((-ninths) / 5)
        }
    } else {
        celsius as i32
    }
}

/// The suffix a temperature is shown with.
pub open spec fn suffix_of(fahrenheit: bool) -> Seq<char> {
    if fahrenheit {
        "\u{00b0}F"@
    } else {
        "\u{00b0}C"@
    }
}

/// The suffix to draw next to a temperature.
pub fn unit_suffix(fahrenheit: bool) -> (r: &'static str)
    ensures
        r@ == suffix_of(fahrenheit),
{
    if fahrenheit {
        "\u{00b0}F"
    } else {
        "\u{00b0}C"
    }
}

/// The names of the profiles a fresh install starts with.
pub open spec fn built_in_names() -> Seq<Seq<char>> {
    seq!["Quiet"@, "Balanced"@, "Performance"@]
}

/// The names of the profiles a fresh install starts with, which it will not
/// let you delete.
pub fn built_in_profiles() -> (r: [&'static str; 3])
    ensures
        r@.len() == 3,
        r@[0]@ == built_in_names()[0],
        r@[1]@ == built_in_names()[1],
        r@[2]@ == built_in_names()[2],
{
    ["Quiet", "Balanced", "Performance"]
}

/// Whether a name is one of the built-in curves.
pub fn is_built_in(name: &str) -> (r: bool)
    ensures
        r == built_in_names().contains(name@),
{
    let r = same(name, "Quiet") || same(name, "Balanced") || same(name, "Performance");
    proof {
        let names = built_in_names();
        assert(names[0] == "Quiet"@ && names[1] == "Balanced"@ && names[2] == "Performance"@);
    }
    r
}

/// The steps of the profile that gives up response for silence.
pub open spec fn quiet_points() -> Seq<CurvePoint> {
    seq![
        step(50, 0, 0, 3),
        step(58, 1, 0, 5),
        step(66, 2, 0, 6),
        step(74, 3, 0, 6),
        step(81, 4, 0, 6),
        step(88, 5, 0, 6),
        step(93, FAN_BIOS, 0, 7),
    ]
}

/// The steps of the profile that does the reverse, and hands to the firmware
/// earlier.
pub open spec fn performance_points() -> Seq<CurvePoint> {
    seq![
        step(40, 1, 0, 4),
        step(48, 2, 0, 4),
        step(55, 3, 0, 4),
        step(62, 4, 0, 5),
        step(70, 5, 0, 5),
        step(78, 6, 0, 5),
        step(84, 7, 0, 5),
        step(88, FAN_BIOS, 0, 6),
    ]
}

/// A profile that ships.
pub open spec fn shipped(name: Seq<char>, points: Seq<CurvePoint>) -> ProfileView {
    ProfileView { name, points: stored_points(points) }
}

/// The profiles a fresh install starts with.
pub open spec fn shipped_profiles() -> Seq<ProfileView> {
    seq![
        shipped("Quiet"@, quiet_points()),
        shipped("Balanced"@, balanced_points()),
        shipped("Performance"@, performance_points()),
    ]
}

/// A profile out of steps.
fn profile_of(name: &str, points: Vec<CurvePoint>) -> (r: Profile)
    ensures
        r@ == shipped(name@, points@),
{
    Profile { name: name.to_owned(), points: store(points.as_slice()) }
}

/// The profiles a fresh install starts with.
pub fn default_profiles() -> (r: Vec<Profile>)
    ensures
        profile_views(r@) == shipped_profiles(),
{
    let quiet = vec![
        CurvePoint::new(50, 0).with_hysteresis(0, 3),
        CurvePoint::new(58, 1).with_hysteresis(0, 5),
        CurvePoint::new(66, 2).with_hysteresis(0, 6),
        CurvePoint::new(74, 3).with_hysteresis(0, 6),
        CurvePoint::new(81, 4).with_hysteresis(0, 6),
        CurvePoint::new(88, 5).with_hysteresis(0, 6),
        CurvePoint::new(93, FAN_BIOS).with_hysteresis(0, 7),
    ];
    let performance = vec![
        CurvePoint::new(40, 1).with_hysteresis(0, 4),
        CurvePoint::new(48, 2).with_hysteresis(0, 4),
        CurvePoint::new(55, 3).with_hysteresis(0, 4),
        CurvePoint::new(62, 4).with_hysteresis(0, 5),
        CurvePoint::new(70, 5).with_hysteresis(0, 5),
        CurvePoint::new(78, 6).with_hysteresis(0, 5),
        CurvePoint::new(84, 7).with_hysteresis(0, 5),
        CurvePoint::new(88, FAN_BIOS).with_hysteresis(0, 6),
    ];
    proof {
        assert(quiet@ == quiet_points());
        assert(performance@ == performance_points());
    }
    let mut r: Vec<Profile> = Vec::new();
    r.push(profile_of("Quiet", quiet));
    r.push(Profile::new("Balanced", &Curve::default()));
    r.push(profile_of("Performance", performance));
    proof {
        assert(profile_views(r@) =~= shipped_profiles());
    }
    r
}

/// What a fresh install starts as, before validation.
pub open spec fn fresh() -> ConfigView {
    ConfigView {
        version: SCHEMA_VERSION,
        poll_secs: 5,
        watchdog_secs: 30,
        startup_mode: StartupMode::Smart,
        active_profile: "Balanced"@,
        profiles: shipped_profiles(),
        ignored_sensors: Seq::empty(),
        show_window_on_start: false,
        standby_poll_secs: 30,
        fahrenheit: false,
        log_enabled: false,
        log_max_mb: 8,
        manual_escape_c: MANUAL_ESCAPE_C,
        tray_numbers: true,
        tray_sensor: None,
        single_fan: false,
        ec_layout: None,
    }
}

impl Default for Config {
    fn default() -> (r: Self)
        ensures
            r@ == fresh(),
    {
        Config {
            version: SCHEMA_VERSION,
            poll_secs: 5,
            watchdog_secs: 30,
            startup_mode: StartupMode::Smart,
            active_profile: "Balanced".to_owned(),
            profiles: default_profiles(),
            ignored_sensors: Vec::new(),
            show_window_on_start: false,
            standby_poll_secs: default_standby_poll(),
            fahrenheit: false,
            log_enabled: false,
            log_max_mb: default_log_max_mb(),
            manual_escape_c: default_manual_escape(),
            tray_numbers: default_tray_numbers(),
            tray_sensor: None,
            single_fan: false,
            ec_layout: None,
        }
    }
}

/// The temperature a repaired profile hands over to the firmware at: the
/// ceiling, or just above a lone point that is hotter.
pub open spec fn handoff_temp(lone: int) -> int {
    larger(SMART_CEILING_C as int, lone + 1)
}

/// Where a lone point ends up: at the very top of the range there is no room
/// for a hotter step, and a lone point's own temperature decides nothing.
pub open spec fn lowered_temp(lone: int) -> int {
    if lone == i8::MAX {
        lone - 1
    } else {
        lone
    }
}

/// A stored profile of fewer than two points turned into one that loads. One
/// with no points says nothing that could be kept, and gets the baseline; one
/// with a single point keeps its level and hands over to the firmware above
/// it.
pub open spec fn repaired(p: ProfileView) -> ProfileView {
    if p.points.len() == 0 {
        ProfileView { name: p.name, points: stored_points(balanced_points()) }
    } else if p.points.len() == 1 {
        let temp = lowered_temp(p.points[0].temp as int);
        ProfileView {
            name: p.name,
            points: seq![
                StoredPoint { temp: temp as i8, ..p.points[0] },
                stored(step(handoff_temp(temp) as i8, FAN_BIOS, 0, 0)),
            ],
        }
    } else {
        p
    }
}

/// Turns a stored profile of fewer than two points into one that loads.
pub fn repair_a_curve_too_short_to_be_one(profile: &mut Profile)
    ensures
        final(profile)@ == repaired(old(profile)@),
{
    if profile.points.len() == 0 {
        let baseline = Curve::default();
        profile.points = store(baseline.points());
    } else if profile.points.len() == 1 {
        let lone = profile.points[0];
        let temp: i8 = if lone.temp == i8::MAX {
            lone.temp - 1
        } else {
            lone.temp
        };
        let above: i8 = temp + 1;
        let handoff: i8 = if SMART_CEILING_C > above {
            SMART_CEILING_C
        } else {
            above
        };
        let mut points: Vec<StoredPoint> = Vec::new();
        points.push(
            StoredPoint { temp, level: lone.level, hyst_up: lone.hyst_up, hyst_down: lone.hyst_down },
        );
        let top = CurvePoint::new(handoff, FAN_BIOS).with_hysteresis(0, 0);
        points.push(StoredPoint::from(&top));
        proof {
            assert(points@ =~= repaired(old(profile)@).points);
        }
        profile.points = points;
    }
}

/// Whether some profile has a name.
pub open spec fn has_profile(profiles: Seq<ProfileView>, name: Seq<char>) -> bool {
    exists|i: int| 0 <= i < profiles.len() && (#[trigger] profiles[i]).name == name
}

/// The place of the first profile with a name, from place `i` on.
pub open spec fn place_of(profiles: Seq<ProfileView>, name: Seq<char>, i: int) -> Option<int>
    decreases profiles.len() - i,
{
    if i >= profiles.len() {
        None
    } else if profiles[i].name == name {
        Some(i)
    } else {
        place_of(profiles, name, i + 1)
    }
}

/// A name that is taken has a place, and one that is not has none.
pub proof fn a_taken_name_has_a_place(profiles: Seq<ProfileView>, name: Seq<char>, i: int)
    requires
        0 <= i,
    ensures
        match place_of(profiles, name, i) {
            Some(k) => i <= k < profiles.len() && profiles[k].name == name,
            None => forall|k: int|
                i <= k < profiles.len() ==> (#[trigger] profiles[k]).name != name,
        },
    decreases profiles.len() - i,
{
    if i < profiles.len() && profiles[i].name != name {
        a_taken_name_has_a_place(profiles, name, i + 1);
    }
}

/// A name is found at the first place that has it.
pub proof fn a_name_is_found_at_its_first_place(
    profiles: Seq<ProfileView>,
    name: Seq<char>,
    from: int,
    at: int,
)
    requires
        0 <= from <= at < profiles.len(),
        profiles[at].name == name,
        forall|k: int| from <= k < at ==> (#[trigger] profiles[k]).name != name,
    ensures
        place_of(profiles, name, from) == Some(at),
    decreases at - from,
{
    if from < at {
        a_name_is_found_at_its_first_place(profiles, name, from + 1, at);
    }
}

/// The place of the first profile with a name.
pub fn find_profile(profiles: &Vec<Profile>, name: &str) -> (r: Option<usize>)
    ensures
        match place_of(profile_views(profiles@), name@, 0) {
            Some(k) => r matches Some(i) && i == k,
            None => r is None,
        },
        r matches Some(i) ==> i < profiles@.len() && profiles@[i as int]@.name == name@,
        r is Some <==> has_profile(profile_views(profiles@), name@),
{
    let ghost views = profile_views(profiles@);
    proof {
        a_taken_name_has_a_place(views, name@, 0);
    }
    let mut i: usize = 0;
    while i < profiles.len()
        invariant
            i <= profiles@.len(),
            views == profile_views(profiles@),
            place_of(views, name@, 0) == place_of(views, name@, i as int),
            forall|k: int| 0 <= k < i ==> (#[trigger] views[k]).name != name@,
        decreases profiles@.len() - i,
    {
        proof {
            assert(views[i as int] == profiles@[i as int]@);
        }
        if same(profiles[i].name.as_str(), name) {
            return Some(i);
        }
        i += 1;
    }
    None
}

/// Profiles with the shipped ones added from number `k` on, each only where
/// its name is not already taken.
pub open spec fn with_built_ins(profiles: Seq<ProfileView>, k: int) -> Seq<ProfileView>
    decreases 3 - k,
{
    if k >= 3 {
        profiles
    } else if has_profile(profiles, shipped_profiles()[k].name) {
        with_built_ins(profiles, k + 1)
    } else {
        with_built_ins(profiles.push(shipped_profiles()[k]), k + 1)
    }
}

/// Settings brought to the present shape. The first shape shipped a single
/// profile, so the others are added; the first two could store curves too
/// short to be one, so those are repaired. Each happens once.
pub open spec fn migrated(c: ConfigView) -> ConfigView {
    let added = if c.version < 2 {
        with_built_ins(c.profiles, 0)
    } else {
        c.profiles
    };
    let fixed = if c.version < 3 {
        added.map_values(|p: ProfileView| repaired(p))
    } else {
        added
    };
    ConfigView { version: SCHEMA_VERSION, profiles: fixed, ..c }
}

/// A stored point with its hysteresis inside the bounds.
pub open spec fn clamped_point(p: StoredPoint) -> StoredPoint {
    StoredPoint {
        hyst_up: between(p.hyst_up as int, 0, HYST_UP_MAX as int) as i8,
        hyst_down: between(p.hyst_down as int, 0, HYST_DOWN_MAX as int) as i8,
        ..p
    }
}

/// A profile with its hysteresis inside the bounds.
pub open spec fn clamped(p: ProfileView) -> ProfileView {
    ProfileView { name: p.name, points: p.points.map_values(|q: StoredPoint| clamped_point(q)) }
}

/// The profiles validation looks at: at least one, all inside the hysteresis
/// bounds.
pub open spec fn runnable(profiles: Seq<ProfileView>) -> Seq<ProfileView> {
    let some = if profiles.len() == 0 {
        seq![shipped("Balanced"@, balanced_points())]
    } else {
        profiles
    };
    some.map_values(|p: ProfileView| clamped(p))
}

/// The first profile, from place `i` on, whose curve is refused.
pub open spec fn first_refused(profiles: Seq<ProfileView>, i: int) -> Option<int>
    decreases profiles.len() - i,
{
    if i >= profiles.len() {
        None
    } else if profiles[i].fault() is Some {
        Some(i)
    } else {
        first_refused(profiles, i + 1)
    }
}

/// Why settings are refused, if they are: the first profile whose curve is.
pub open spec fn refusal(c: ConfigView) -> Option<ConfigErrorView> {
    let profiles = runnable(c.profiles);
    match first_refused(profiles, 0) {
        Some(i) => Some(
            ConfigErrorView::Curve {
                profile: profiles[i].name,
                source: profiles[i].fault()->0,
            },
        ),
        None => None,
    }
}

/// Settings held inside what the program will run: bounds kept, a profile
/// that exists made active, a sensor that does not exist forgotten.
pub open spec fn validated(c: ConfigView) -> ConfigView {
    let profiles = runnable(c.profiles);
    let poll = between(c.poll_secs as int, POLL_SECS_MIN as int, POLL_SECS_MAX as int) as u32;
    let standby = between(
        c.standby_poll_secs as int,
        STANDBY_POLL_SECS_MIN as int,
        STANDBY_POLL_SECS_MAX as int,
    ) as u32;
    ConfigView {
        profiles,
        active_profile: if has_profile(profiles, c.active_profile) {
            c.active_profile
        } else {
            profiles[0].name
        },
        tray_sensor: match c.tray_sensor {
            Some(i) if i as int >= SENSOR_COUNT as int => None,
            other => other,
        },
        poll_secs: poll,
        standby_poll_secs: standby,
        watchdog_secs: larger(c.watchdog_secs as int, floor_of(poll, standby)) as u32,
        log_max_mb: between(c.log_max_mb as int, LOG_MAX_MB_MIN as int, LOG_MAX_MB_MAX as int) as u32,
        manual_escape_c: between(
            c.manual_escape_c as int,
            MANUAL_ESCAPE_MIN as int,
            MANUAL_ESCAPE_MAX as int,
        ) as i8,
        ..c
    }
}

/// A profile with its hysteresis inside the bounds.
fn clamp_profile(p: &Profile) -> (r: Profile)
    ensures
        r@ == clamped(p@),
{
    let mut points: Vec<StoredPoint> = Vec::new();
    let mut i: usize = 0;
    while i < p.points.len()
        invariant
            i <= p.points@.len(),
            points@.len() == i,
            forall|k: int| 0 <= k < i ==> (#[trigger] points@[k]) == clamped_point(p.points@[k]),
        decreases p.points@.len() - i,
    {
        let q = p.points[i];
        points.push(
            StoredPoint {
                temp: q.temp,
                level: q.level,
                hyst_up: hold_i8(q.hyst_up, 0, HYST_UP_MAX),
                hyst_down: hold_i8(q.hyst_down, 0, HYST_DOWN_MAX),
            },
        );
        i += 1;
    }
    proof {
        assert(points@ =~= clamped(p@).points);
    }
    Profile { name: p.name.clone(), points }
}

/// What reading the settings file brought.
#[derive(Debug)]
pub enum Stored {
    /// There is no file: a first run.
    Missing,
    /// It could not be read, and why.
    Unreadable(String),
    /// It is not settings, and why.
    Garbled(String),
    /// What it says.
    Parsed(Config),
}

impl Stored {
    /// The settings a file gives, or why it gives none.
    pub open spec fn gives(self) -> Result<ConfigView, ConfigErrorView> {
        match self {
            Stored::Missing => Ok(validated(fresh())),
            Stored::Unreadable(why) => Err(ConfigErrorView::Io(why@)),
            Stored::Garbled(why) => Err(ConfigErrorView::Parse(why@)),
            Stored::Parsed(stored) => if stored@.version > SCHEMA_VERSION {
                Err(
                    ConfigErrorView::FromTheFuture {
                        found: stored@.version,
                        supported: SCHEMA_VERSION,
                    },
                )
            } else {
                match refusal(migrated(stored@)) {
                    Some(why) => Err(why),
                    None => Ok(validated(migrated(stored@))),
                }
            },
        }
    }
}

/// What a settings file's text is without the mark some editors put in front
/// of it. A byte order mark is not JSON, and a document that begins with one
/// is refused.
pub open spec fn unmarked(text: Seq<char>) -> Seq<char> {
    if text.len() > 0 && text[0] == '\u{feff}' {
        text.subrange(1, text.len() as int)
    } else {
        text
    }
}

/// What a settings file's text is without a byte order mark.
pub fn strip_mark(text: &str) -> (r: String)
    ensures
        r@ == unmarked(text@),
{
    let chars = chars_of(text);
    if chars.len() > 0 && chars[0] == '\u{feff}' {
        string_of(&part(&chars, 1, chars.len()))
    } else {
        text.to_owned()
    }
}

/// Where the settings are kept, given what `%ProgramData%` is.
pub open spec fn settings_path(program_data: Option<Seq<char>>) -> Seq<char> {
    crate::paths::under(
        crate::paths::under(
            match program_data {
                Some(dir) => dir,
                None => "C:\\ProgramData"@,
            },
            "Yamato"@,
        ),
        "config.json"@,
    )
}

impl Config {
    /// Seconds between decisions for the current power state.
    pub fn poll_interval(&self, in_standby: bool) -> (r: u64)
        ensures
            r == (if in_standby {
                self.standby_poll_secs
            } else {
                self.poll_secs
            }),
    {
        if in_standby {
            self.standby_poll_secs as u64
        } else {
            self.poll_secs as u64
        }
    }

    /// `%ProgramData%\Yamato\config.json`, given what `%ProgramData%` is.
    pub fn default_path(program_data: Option<&str>) -> (r: String)
        ensures
            r@ == settings_path(
                match program_data {
                    Some(dir) => Some(dir@),
                    None => None,
                },
            ),
    {
        let base = match program_data {
            Some(dir) => dir,
            None => "C:\\ProgramData",
        };
        let dir = join(base, "Yamato");
        join(dir.as_str(), "config.json")
    }

    /// Where a save is first written, beside the file it will replace, so an
    /// interrupted one cannot leave a half-written file behind.
    pub fn temporary_path(path: &str) -> (r: String)
        ensures
            r@ == crate::paths::extended(path@, "json.new"@),
    {
        proof {
            reveal_strlit("json.new");
        }
        crate::paths::with_extension(path, "json.new")
    }

    /// Brings settings stored by an older version to the present shape, and
    /// refuses those of a newer one.
    pub fn migrate(&mut self) -> (r: Result<(), ConfigError>)
        ensures
            if old(self)@.version > SCHEMA_VERSION {
                &&& r matches Err(e)
                &&& e@ == (ConfigErrorView::FromTheFuture {
                    found: old(self)@.version,
                    supported: SCHEMA_VERSION,
                })
                &&& final(self)@ == old(self)@
            } else {
                r is Ok && final(self)@ == migrated(old(self)@)
            },
    {
        if self.version > SCHEMA_VERSION {
            return Err(
                ConfigError::FromTheFuture { found: self.version, supported: SCHEMA_VERSION },
            );
        }
        if self.version < 2 {
            self.add_built_ins();
        }
        if self.version < 3 {
            self.repair_profiles();
        }
        self.version = SCHEMA_VERSION;
        Ok(())
    }

    fn add_built_ins(&mut self)
        ensures
            final(self)@ == (ConfigView {
                profiles: with_built_ins(old(self)@.profiles, 0),
                ..old(self)@
            }),
    {
        let built_ins = default_profiles();
        proof {
            assert(profile_views(built_ins@).len() == 3);
        }
        let mut k: usize = 0;
        while k < built_ins.len()
            invariant
                k <= 3,
                profile_views(built_ins@) == shipped_profiles(),
                built_ins@.len() == 3,
                with_built_ins(old(self)@.profiles, 0) == with_built_ins(
                    profile_views(self.profiles@),
                    k as int,
                ),
                self@ == (ConfigView { profiles: self@.profiles, ..old(self)@ }),
            decreases 3 - k,
        {
            proof {
                assert(shipped_profiles()[k as int] == built_ins@[k as int]@);
            }
            let found = find_profile(&self.profiles, built_ins[k].name.as_str());
            if found.is_none() {
                let ghost before = self.profiles@;
                let added = built_ins[k].clone();
                self.profiles.push(added);
                proof {
                    assert(profile_views(self.profiles@) =~= profile_views(before).push(
                        shipped_profiles()[k as int],
                    ));
                }
            }
            k += 1;
        }
    }

    fn repair_profiles(&mut self)
        ensures
            final(self)@ == (ConfigView {
                profiles: old(self)@.profiles.map_values(|p: ProfileView| repaired(p)),
                ..old(self)@
            }),
    {
        let mut done: Vec<Profile> = Vec::new();
        let mut i: usize = 0;
        while i < self.profiles.len()
            invariant
                i <= self.profiles@.len(),
                self@ == old(self)@,
                done@.len() == i,
                forall|k: int|
                    0 <= k < i ==> (#[trigger] done@[k])@ == repaired(self.profiles@[k]@),
            decreases self.profiles@.len() - i,
        {
            let mut p = self.profiles[i].clone();
            repair_a_curve_too_short_to_be_one(&mut p);
            done.push(p);
            i += 1;
        }
        proof {
            assert(profile_views(done@) =~= old(self)@.profiles.map_values(
                |p: ProfileView| repaired(p),
            ));
        }
        self.profiles = done;
    }

    fn clamp_profiles(&mut self)
        ensures
            final(self)@ == (ConfigView {
                profiles: runnable(old(self)@.profiles),
                ..old(self)@
            }),
    {
        if self.profiles.len() == 0 {
            self.profiles.push(Profile::new("Balanced", &Curve::default()));
        }
        let ghost some = profile_views(self.profiles@);
        proof {
            if old(self)@.profiles.len() == 0 {
                assert(some =~= seq![shipped("Balanced"@, balanced_points())]);
            } else {
                assert(some == old(self)@.profiles);
            }
        }
        let mut done: Vec<Profile> = Vec::new();
        let mut i: usize = 0;
        while i < self.profiles.len()
            invariant
                i <= self.profiles@.len(),
                some == profile_views(self.profiles@),
                self@ == (ConfigView { profiles: some, ..old(self)@ }),
                done@.len() == i,
                forall|k: int| 0 <= k < i ==> (#[trigger] done@[k])@ == clamped(some[k]),
            decreases self.profiles@.len() - i,
        {
            proof {
                assert(some[i as int] == self.profiles@[i as int]@);
            }
            done.push(clamp_profile(&self.profiles[i]));
            i += 1;
        }
        proof {
            assert(profile_views(done@) =~= runnable(old(self)@.profiles));
        }
        self.profiles = done;
    }

    /// Holds every setting inside what the program will run, and refuses
    /// settings with a stored curve that breaks the rules. The hysteresis of
    /// refused settings has been brought into bounds, and nothing else of
    /// them.
    pub fn validate(&mut self) -> (r: Result<(), ConfigError>)
        ensures
            match refusal(old(self)@) {
                Some(e) => {
                    &&& r matches Err(why)
                    &&& why@ == e
                    &&& final(self)@ == (ConfigView {
                        profiles: runnable(old(self)@.profiles),
                        ..old(self)@
                    })
                },
                None => r is Ok && final(self)@ == validated(old(self)@),
            },
    {
        self.clamp_profiles();
        let ghost profiles = runnable(old(self)@.profiles);
        let mut i: usize = 0;
        while i < self.profiles.len()
            invariant
                i <= self.profiles@.len(),
                profiles == runnable(old(self)@.profiles),
                self@ == (ConfigView { profiles, ..old(self)@ }),
                first_refused(profiles, 0) == first_refused(profiles, i as int),
            decreases self.profiles@.len() - i,
        {
            proof {
                assert(profiles[i as int] == self.profiles@[i as int]@);
            }
            match self.profiles[i].to_curve() {
                Ok(_) => {},
                Err(e) => {
                    return Err(e);
                },
            }
            i += 1;
        }
        let known = find_profile(&self.profiles, self.active_profile.as_str());
        if known.is_none() {
            proof {
                assert(profiles[0] == self.profiles@[0]@);
            }
            self.active_profile = self.profiles[0].name.clone();
        }
        match self.tray_sensor {
            Some(sensor) => {
                if sensor as usize >= SENSOR_COUNT {
                    self.tray_sensor = None;
                }
            },
            None => {},
        }
        self.poll_secs = hold_u32(self.poll_secs, POLL_SECS_MIN, POLL_SECS_MAX);
        self.standby_poll_secs = hold_u32(
            self.standby_poll_secs,
            STANDBY_POLL_SECS_MIN,
            STANDBY_POLL_SECS_MAX,
        );
        let floor = watchdog_floor(self.poll_secs, self.standby_poll_secs);
        if self.watchdog_secs < floor {
            self.watchdog_secs = floor;
        }
        self.log_max_mb = hold_u32(self.log_max_mb, LOG_MAX_MB_MIN, LOG_MAX_MB_MAX);
        self.manual_escape_c = hold_i8(self.manual_escape_c, MANUAL_ESCAPE_MIN, MANUAL_ESCAPE_MAX);
        Ok(())
    }

    /// The settings a file gives. A missing file is a first run, and still
    /// goes through validation; anything else wrong with it is an error.
    pub fn load(file: Stored) -> (r: Result<Config, ConfigError>)
        ensures
            match file.gives() {
                Ok(c) => r matches Ok(config) && config@ == c,
                Err(why) => r matches Err(e) && e@ == why,
            },
    {
        match file {
            Stored::Missing => {
                let mut c = Config::default();
                proof {
                    a_fresh_install_validates();
                }
                match c.validate() {
                    Ok(_) => Ok(c),
                    Err(e) => Err(e),
                }
            },
            Stored::Unreadable(why) => Err(ConfigError::Io(why)),
            Stored::Garbled(why) => Err(ConfigError::Parse(why)),
            Stored::Parsed(stored) => {
                let mut c = stored;
                match c.migrate() {
                    Ok(_) => {},
                    Err(e) => {
                        return Err(e);
                    },
                }
                match c.validate() {
                    Ok(_) => Ok(c),
                    Err(e) => Err(e),
                }
            },
        }
    }

    /// The curve of the active profile, and of the first profile when the
    /// active one is not there.
    pub fn active_curve(&self) -> (r: Result<Curve, ConfigError>)
        requires
            self@.profiles.len() > 0,
        ensures
            match self@.active().fault() {
                None => r matches Ok(curve) && curve@ == curve_points(self@.active().points)
                    && valid_curve(curve@),
                Some(source) => r matches Err(e) && e@ == (ConfigErrorView::Curve {
                    profile: self@.active().name,
                    source,
                }),
            },
    {
        proof {
            a_taken_name_has_a_place(self@.profiles, self@.active_profile, 0);
        }
        match find_profile(&self.profiles, self.active_profile.as_str()) {
            Some(i) => {
                proof {
                    assert(self@.profiles[i as int] == self.profiles@[i as int]@);
                }
                self.profiles[i].to_curve()
            },
            None => {
                proof {
                    assert(self@.profiles[0] == self.profiles@[0]@);
                }
                self.profiles[0].to_curve()
            },
        }
    }
}

impl ConfigView {
    /// The active profile, or the first when it is not there.
    pub open spec fn active(self) -> ProfileView {
        match place_of(self.profiles, self.active_profile, 0) {
            Some(i) => self.profiles[i],
            None => self.profiles[0],
        }
    }
}

/// Whether every stored point keeps to the hysteresis bounds.
pub open spec fn inside_bounds(points: Seq<StoredPoint>) -> bool {
    forall|i: int|
        0 <= i < points.len() ==> 0 <= (#[trigger] points[i]).hyst_up <= HYST_UP_MAX && 0
            <= points[i].hyst_down <= HYST_DOWN_MAX
}

proof fn shipped_is_valid(points: Seq<CurvePoint>)
    requires
        valid_curve(points),
        inside_bounds(stored_points(points)),
    ensures
        shipped(""@, points).fault() is None,
        clamped(shipped(""@, points)).points == shipped(""@, points).points,
{
    storing_keeps_a_curve(points);
    crate::curve::refused_exactly_when_not_a_curve(points);
    let p = shipped(""@, points);
    assert(clamped(p).points =~= p.points);
}

/// Every profile that ships is a curve the engine accepts, inside the
/// hysteresis bounds, and hands over to the firmware at the top.
pub proof fn every_shipped_profile_is_a_curve(k: int)
    requires
        0 <= k < 3,
    ensures
        shipped_profiles()[k].fault() is None,
        inside_bounds(shipped_profiles()[k].points),
        clamped(shipped_profiles()[k]) == shipped_profiles()[k],
        shipped_profiles()[k].points.last().level == FAN_BIOS,
        shipped_profiles()[k].name == built_in_names()[k],
{
    assert(valid_curve(quiet_points()));
    assert(valid_curve(balanced_points()));
    assert(valid_curve(performance_points()));
    shipped_is_valid(quiet_points());
    shipped_is_valid(balanced_points());
    shipped_is_valid(performance_points());
    let p = shipped_profiles()[k];
    assert(p.points.last().level == FAN_BIOS);
}

proof fn no_refusal_from(profiles: Seq<ProfileView>, i: int)
    requires
        0 <= i,
        forall|k: int| i <= k < profiles.len() ==> (#[trigger] profiles[k]).fault() is None,
    ensures
        first_refused(profiles, i) is None,
    decreases profiles.len() - i,
{
    if i < profiles.len() {
        no_refusal_from(profiles, i + 1);
    }
}

proof fn none_refused(profiles: Seq<ProfileView>, i: int)
    requires
        0 <= i,
        first_refused(profiles, i) is None,
    ensures
        forall|k: int| i <= k < profiles.len() ==> (#[trigger] profiles[k]).fault() is None,
    decreases profiles.len() - i,
{
    if i < profiles.len() {
        none_refused(profiles, i + 1);
    }
}

/// What a fresh install starts with is never refused.
pub proof fn a_fresh_install_validates()
    ensures
        refusal(fresh()) is None,
        runnable(shipped_profiles()) == shipped_profiles(),
{
    every_shipped_profile_is_a_curve(0);
    every_shipped_profile_is_a_curve(1);
    every_shipped_profile_is_a_curve(2);
    let r = runnable(shipped_profiles());
    assert(r[0] == clamped(shipped_profiles()[0]));
    assert(r[1] == clamped(shipped_profiles()[1]));
    assert(r[2] == clamped(shipped_profiles()[2]));
    assert(r =~= shipped_profiles());
    no_refusal_from(r, 0);
}

/// Settings once validated stay as they are: validating again refuses nothing
/// and changes nothing.
pub proof fn validating_twice_changes_nothing(c: ConfigView)
    requires
        refusal(c) is None,
    ensures
        refusal(validated(c)) is None,
        validated(validated(c)) == validated(c),
{
    let v = validated(c);
    let profiles = runnable(c.profiles);
    assert forall|i: int| 0 <= i < profiles.len() implies clamped(#[trigger] profiles[i])
        == profiles[i] by {
        let some = if c.profiles.len() == 0 {
            seq![shipped("Balanced"@, balanced_points())]
        } else {
            c.profiles
        };
        assert(profiles[i] == clamped(some[i]));
        assert(clamped(profiles[i]).points =~= profiles[i].points);
    }
    assert(profiles.len() > 0);
    assert(runnable(v.profiles) =~= v.profiles);
    if !has_profile(profiles, c.active_profile) {
        assert(profiles[0].name == v.active_profile);
        assert(has_profile(v.profiles, v.active_profile));
    }
}

/// Validated settings are inside every bound: the polls and the history's
/// size, the manual escape, the watchdog at least three of the slowest polls,
/// the tray's sensor one that exists, and the hysteresis of every point.
pub proof fn validated_settings_keep_the_bounds(c: ConfigView)
    ensures
        POLL_SECS_MIN <= validated(c).poll_secs <= POLL_SECS_MAX,
        STANDBY_POLL_SECS_MIN <= validated(c).standby_poll_secs <= STANDBY_POLL_SECS_MAX,
        LOG_MAX_MB_MIN <= validated(c).log_max_mb <= LOG_MAX_MB_MAX,
        MANUAL_ESCAPE_MIN <= validated(c).manual_escape_c <= MANUAL_ESCAPE_MAX,
        validated(c).watchdog_secs >= 3 * validated(c).poll_secs,
        validated(c).watchdog_secs >= 3 * validated(c).standby_poll_secs,
        validated(c).tray_sensor matches Some(i) ==> i < SENSOR_COUNT,
        forall|k: int|
            0 <= k < validated(c).profiles.len() ==> inside_bounds(
                (#[trigger] validated(c).profiles[k]).points,
            ),
{
    let some = if c.profiles.len() == 0 {
        seq![shipped("Balanced"@, balanced_points())]
    } else {
        c.profiles
    };
    assert forall|k: int| 0 <= k < validated(c).profiles.len() implies inside_bounds(
        (#[trigger] validated(c).profiles[k]).points,
    ) by {
        assert(validated(c).profiles[k] == clamped(some[k]));
    }
}

/// Settings that validate have an active profile that is there and whose
/// curve the engine accepts.
pub proof fn validated_settings_have_a_curve_to_run(c: ConfigView)
    requires
        refusal(c) is None,
    ensures
        has_profile(validated(c).profiles, validated(c).active_profile),
        validated(c).active().name == validated(c).active_profile,
        validated(c).active().fault() is None,
{
    let v = validated(c);
    none_refused(v.profiles, 0);
    a_taken_name_has_a_place(v.profiles, v.active_profile, 0);
    if !has_profile(v.profiles, c.active_profile) {
        assert(v.profiles[0].name == v.active_profile);
    }
}

/// The migration runs only once: settings of the present shape come through
/// untouched, and migrated settings are of the present shape.
pub proof fn the_migration_runs_only_once(c: ConfigView)
    ensures
        c.version == SCHEMA_VERSION ==> migrated(c) == c,
        migrated(c).version == SCHEMA_VERSION,
        migrated(migrated(c)) == migrated(c),
{
}

proof fn adding_keeps(profiles: Seq<ProfileView>, k: int)
    requires
        0 <= k <= 3,
    ensures
        profiles.len() <= with_built_ins(profiles, k).len(),
        forall|i: int|
            0 <= i < profiles.len() ==> (#[trigger] with_built_ins(profiles, k)[i]) == profiles[i],
        forall|j: int|
            k <= j < 3 ==> has_profile(
                with_built_ins(profiles, k),
                (#[trigger] shipped_profiles()[j]).name,
            ),
    decreases 3 - k,
{
    if k < 3 {
        let name = shipped_profiles()[k].name;
        let next = if has_profile(profiles, name) {
            profiles
        } else {
            profiles.push(shipped_profiles()[k])
        };
        adding_keeps(next, k + 1);
        let done = with_built_ins(profiles, k);
        assert(done == with_built_ins(next, k + 1));
        assert forall|i: int| 0 <= i < profiles.len() implies (#[trigger] done[i])
            == profiles[i] by {
            assert(next[i] == profiles[i]);
        }
        if has_profile(profiles, name) {
            let i = choose|i: int| 0 <= i < profiles.len() && (#[trigger] profiles[i]).name == name;
            assert(done[i].name == name);
        } else {
            assert(next[profiles.len() as int].name == name);
            assert(done[profiles.len() as int].name == name);
        }
    }
}

/// Migrating keeps what the user made: every profile that is a list of two or
/// more points stays where it was, as it was, and every profile keeps its
/// name.
pub proof fn migrating_keeps_the_users_profiles(c: ConfigView)
    ensures
        c.profiles.len() <= migrated(c).profiles.len(),
        forall|i: int|
            0 <= i < c.profiles.len() ==> (#[trigger] migrated(c).profiles[i]).name
                == c.profiles[i].name,
        forall|i: int|
            0 <= i < c.profiles.len() && c.profiles[i].points.len() >= 2 ==> (
            #[trigger] migrated(c).profiles[i]) == c.profiles[i],
{
    adding_keeps(c.profiles, 0);
}

/// Upgrading from the first shape gains every built-in profile that was not
/// there.
pub proof fn upgrading_gains_the_built_ins(c: ConfigView, k: int)
    requires
        c.version < 2,
        0 <= k < 3,
    ensures
        has_profile(migrated(c).profiles, built_in_names()[k]),
{
    adding_keeps(c.profiles, 0);
    every_shipped_profile_is_a_curve(k);
    let name = shipped_profiles()[k].name;
    let added = with_built_ins(c.profiles, 0);
    let i = choose|i: int| 0 <= i < added.len() && (#[trigger] added[i]).name == name;
    assert(migrated(c).profiles[i].name == name);
}

/// A profile of fewer than two points is a curve once repaired, provided the
/// level of its lone point is one a fan may be asked for.
pub proof fn a_repaired_profile_is_a_curve(p: ProfileView)
    requires
        p.points.len() < 2,
        p.points.len() == 1 ==> p.points[0].point().legal(),
    ensures
        repaired(p).fault() is None,
{
    let points = curve_points(repaired(p).points);
    if p.points.len() == 0 {
        storing_keeps_a_curve(balanced_points());
        assert(valid_curve(balanced_points()));
    } else {
        assert(points.len() == 2);
        assert(points[0] == repaired(p).points[0].point());
        assert(points[1] == repaired(p).points[1].point());
    }
    crate::curve::refused_exactly_when_not_a_curve(points);
}

/// Repairing a lone point changes nothing below the step it adds: at every
/// temperature below that the level is the one that was stored.
pub proof fn a_repair_keeps_the_stored_level(p: ProfileView, temp: i8)
    requires
        p.points.len() == 1,
        temp < handoff_temp(lowered_temp(p.points[0].temp as int)),
    ensures
        crate::curve::level_of_step(
            curve_points(repaired(p).points),
            crate::curve::bare_step(curve_points(repaired(p).points), temp),
        ) == p.points[0].level,
        handoff_temp(lowered_temp(p.points[0].temp as int)) >= SMART_CEILING_C,
{
    let points = curve_points(repaired(p).points);
    assert(points.len() == 2);
    assert(points[0] == repaired(p).points[0].point());
    assert(points.last() == repaired(p).points[1].point());
    assert(points.drop_last().len() == 1);
    assert(crate::curve::bare_step(points.drop_last(), temp) == 0);
}

/// The level a curve asks for at a temperature, decided afresh.
pub open spec fn fresh_level(points: Seq<CurvePoint>, temp: i8) -> u8 {
    crate::curve::level_of_step(points, crate::curve::bare_step(points, temp))
}

proof fn bare_step_is(points: Seq<CurvePoint>, temp: i8, k: int)
    requires
        0 <= k < points.len(),
        k > 0 ==> temp >= points[k].temp,
        k + 1 < points.len() ==> temp < points[k + 1].temp,
        valid_curve(points),
    ensures
        crate::curve::bare_step(points, temp) == k,
{
    crate::curve::bare_step_is_a_step(points, temp);
    crate::curve::bare_step_is_the_highest_reached(points, temp);
    let b = crate::curve::bare_step(points, temp);
    if b < k {
        assert(temp < points[k].temp);
    }
    if b > k {
        if b > k + 1 {
            assert(points[k + 1].temp < points[b].temp);
        }
    }
}

spec fn quiet_step(t: i8) -> int {
    if t < 58 {
        0
    } else if t < 66 {
        1
    } else if t < 74 {
        2
    } else if t < 81 {
        3
    } else if t < 88 {
        4
    } else if t < 93 {
        5
    } else {
        6
    }
}

spec fn balanced_step(t: i8) -> int {
    if t < 52 {
        0
    } else if t < 60 {
        1
    } else if t < 68 {
        2
    } else if t < 76 {
        3
    } else if t < 84 {
        4
    } else if t < 90 {
        5
    } else {
        6
    }
}

spec fn performance_step(t: i8) -> int {
    if t < 48 {
        0
    } else if t < 55 {
        1
    } else if t < 62 {
        2
    } else if t < 70 {
        3
    } else if t < 78 {
        4
    } else if t < 84 {
        5
    } else if t < 88 {
        6
    } else {
        7
    }
}

/// The profiles that ship are ordered by how loud they are: at every
/// temperature where none of two has handed over to the firmware, Quiet is no
/// louder than Balanced and Balanced no louder than Performance.
pub proof fn the_profiles_are_ordered_by_how_loud_they_are(temp: i8)
    ensures
        ({
            let q = fresh_level(quiet_points(), temp);
            let b = fresh_level(balanced_points(), temp);
            let p = fresh_level(performance_points(), temp);
            &&& q != FAN_BIOS && b != FAN_BIOS ==> q <= b
            &&& b != FAN_BIOS && p != FAN_BIOS ==> b <= p
        }),
{
    every_shipped_profile_is_a_curve(0);
    assert(valid_curve(quiet_points()));
    assert(valid_curve(balanced_points()));
    assert(valid_curve(performance_points()));
    bare_step_is(quiet_points(), temp, quiet_step(temp));
    bare_step_is(balanced_points(), temp, balanced_step(temp));
    bare_step_is(performance_points(), temp, performance_step(temp));
}

/// Settings that load have a profile, and an active one among them.
pub proof fn what_loads_has_a_profile(file: Stored)
    ensures
        file.gives() matches Ok(c) ==> c.profiles.len() > 0 && has_profile(
            c.profiles,
            c.active_profile,
        ) && c.active().fault() is None,
        fresh().profiles.len() > 0,
{
    a_fresh_install_validates();
    match file {
        Stored::Missing => {
            validated_settings_have_a_curve_to_run(fresh());
        },
        Stored::Parsed(stored) => {
            if refusal(migrated(stored@)) is None {
                validated_settings_have_a_curve_to_run(migrated(stored@));
            }
        },
        _ => {},
    }
}

/// Settings that load nominate a sensor there is, or none.
pub proof fn what_loads_names_a_sensor(file: Stored)
    ensures
        file.gives() matches Ok(c) ==> (c.tray_sensor matches Some(i) ==> i < SENSOR_COUNT),
{
}

/// Validation leaves alone every setting that is already inside its bounds,
/// and every setting that has none.
pub proof fn validation_leaves_alone_what_is_inside_its_bounds(c: ConfigView)
    ensures
        1 <= c.poll_secs <= 60 ==> validated(c).poll_secs == c.poll_secs,
        5 <= c.standby_poll_secs <= 120 ==> validated(c).standby_poll_secs == c.standby_poll_secs,
        1 <= c.log_max_mb <= 128 ==> validated(c).log_max_mb == c.log_max_mb,
        60 <= c.manual_escape_c <= 90 ==> validated(c).manual_escape_c == c.manual_escape_c,
        c.watchdog_secs >= 3 * validated(c).poll_secs && c.watchdog_secs >= 3
            * validated(c).standby_poll_secs ==> validated(c).watchdog_secs == c.watchdog_secs,
        (c.tray_sensor matches Some(i) ==> i < 12) ==> validated(c).tray_sensor == c.tray_sensor,
        (exists|i: int|
            0 <= i < c.profiles.len() && (#[trigger] c.profiles[i]).name == c.active_profile)
            ==> validated(c).active_profile == c.active_profile,
        validated(c).version == c.version,
        validated(c).startup_mode == c.startup_mode,
        validated(c).ignored_sensors == c.ignored_sensors,
        validated(c).show_window_on_start == c.show_window_on_start,
        validated(c).fahrenheit == c.fahrenheit,
        validated(c).log_enabled == c.log_enabled,
        validated(c).tray_numbers == c.tray_numbers,
        validated(c).single_fan == c.single_fan,
        validated(c).ec_layout == c.ec_layout,
{
    if exists|i: int|
        0 <= i < c.profiles.len() && (#[trigger] c.profiles[i]).name == c.active_profile {
        let i = choose|i: int|
            0 <= i < c.profiles.len() && (#[trigger] c.profiles[i]).name == c.active_profile;
        assert(runnable(c.profiles)[i] == clamped(c.profiles[i]));
        assert(runnable(c.profiles)[i].name == c.active_profile);
    }
}

/// Validation moves a setting outside its bounds to the nearest bound: the
/// watchdog to three of the slowest polls, a sensor that does not exist to
/// none, and a profile that does not exist to the first.
pub proof fn validation_moves_the_rest_to_the_nearest_bound(c: ConfigView)
    ensures
        c.poll_secs < 1 ==> validated(c).poll_secs == 1,
        c.poll_secs > 60 ==> validated(c).poll_secs == 60,
        c.standby_poll_secs < 5 ==> validated(c).standby_poll_secs == 5,
        c.standby_poll_secs > 120 ==> validated(c).standby_poll_secs == 120,
        c.log_max_mb < 1 ==> validated(c).log_max_mb == 1,
        c.log_max_mb > 128 ==> validated(c).log_max_mb == 128,
        c.manual_escape_c < 60 ==> validated(c).manual_escape_c == 60,
        c.manual_escape_c > 90 ==> validated(c).manual_escape_c == 90,
        validated(c).watchdog_secs == c.watchdog_secs || validated(c).watchdog_secs == 3
            * validated(c).poll_secs || validated(c).watchdog_secs == 3
            * validated(c).standby_poll_secs,
        (c.tray_sensor matches Some(i) && i >= 12) ==> validated(c).tray_sensor is None,
        (forall|i: int|
            0 <= i < c.profiles.len() ==> (#[trigger] c.profiles[i]).name != c.active_profile)
            ==> {
            ||| validated(c).active_profile == validated(c).profiles[0].name
            ||| c.profiles.len() == 0 && validated(c).active_profile == c.active_profile
        },
{
}

/// Validation keeps every profile, in order, under its name, with the
/// temperatures and levels of its points, and with their hysteresis where
/// that is 0 to 5 degrees up and 0 to 15 down; a margin outside goes to the
/// nearest end. Settings without a profile get one named Balanced.
pub proof fn validation_keeps_the_profiles(c: ConfigView, i: int, k: int)
    requires
        0 <= i < c.profiles.len(),
        0 <= k < c.profiles[i].points.len(),
    ensures
        validated(c).profiles.len() == c.profiles.len(),
        validated(c).profiles[i].name == c.profiles[i].name,
        validated(c).profiles[i].points.len() == c.profiles[i].points.len(),
        ({
            let was = c.profiles[i].points[k];
            let is = validated(c).profiles[i].points[k];
            &&& is.temp == was.temp
            &&& is.level == was.level
            &&& 0 <= was.hyst_up <= 5 ==> is.hyst_up == was.hyst_up
            &&& was.hyst_up < 0 ==> is.hyst_up == 0
            &&& was.hyst_up > 5 ==> is.hyst_up == 5
            &&& 0 <= was.hyst_down <= 15 ==> is.hyst_down == was.hyst_down
            &&& was.hyst_down < 0 ==> is.hyst_down == 0
            &&& was.hyst_down > 15 ==> is.hyst_down == 15
        }),
{
    assert(runnable(c.profiles)[i] == clamped(c.profiles[i]));
    assert(clamped(c.profiles[i]).points[k] == clamped_point(c.profiles[i].points[k]));
}

/// Settings without a single profile are given the shipped Balanced one.
pub proof fn validation_never_leaves_no_profile(c: ConfigView)
    requires
        c.profiles.len() == 0,
    ensures
        validated(c).profiles.len() == 1,
        validated(c).profiles[0].name == "Balanced"@,
        curve_points(validated(c).profiles[0].points) == balanced_points(),
        validated(c).active_profile == "Balanced"@,
        refusal(c) is None,
{
    every_shipped_profile_is_a_curve(1);
    let p = shipped_profiles()[1];
    assert(runnable(c.profiles)[0] == clamped(p));
    storing_keeps_a_curve(balanced_points());
    no_refusal_from(runnable(c.profiles), 0);
    if has_profile(runnable(c.profiles), c.active_profile) {
        let i = choose|i: int|
            0 <= i < runnable(c.profiles).len() && (#[trigger] runnable(c.profiles)[i]).name
                == c.active_profile;
        assert(i == 0);
    }
}

proof fn the_first_refused(profiles: Seq<ProfileView>, i: int)
    requires
        0 <= i,
    ensures
        match first_refused(profiles, i) {
            Some(k) => {
                &&& i <= k < profiles.len()
                &&& profiles[k].fault() is Some
                &&& forall|j: int| i <= j < k ==> (#[trigger] profiles[j]).fault() is None
            },
            None => forall|j: int|
                i <= j < profiles.len() ==> (#[trigger] profiles[j]).fault() is None,
        },
    decreases profiles.len() - i,
{
    if i < profiles.len() && profiles[i].fault() is None {
        the_first_refused(profiles, i + 1);
    }
}

/// Settings are refused exactly for a profile whose stored points, taken as
/// they are, are no curve: margins do not come into it. The refusal names the
/// first such profile and what is wrong with its points.
pub proof fn settings_are_refused_for_their_first_bad_curve(c: ConfigView)
    requires
        c.profiles.len() > 0,
    ensures
        match refusal(c) {
            Some(ConfigErrorView::Curve { profile, source }) => exists|i: int|
                {
                    &&& 0 <= i < c.profiles.len()
                    &&& (#[trigger] c.profiles[i]).name == profile
                    &&& curve_fault(curve_points(c.profiles[i].points)) == Some(source)
                    &&& forall|j: int|
                        0 <= j < i ==> curve_fault(
                            curve_points((#[trigger] c.profiles[j]).points),
                        ) is None
                },
            Some(_) => false,
            None => forall|j: int|
                0 <= j < c.profiles.len() ==> curve_fault(
                    curve_points((#[trigger] c.profiles[j]).points),
                ) is None,
        },
{
    let profiles = runnable(c.profiles);
    the_first_refused(profiles, 0);
    assert forall|j: int| 0 <= j < c.profiles.len() implies (#[trigger] profiles[j]).fault()
        == curve_fault(curve_points(c.profiles[j].points)) && profiles[j].name
        == c.profiles[j].name by {
        assert(profiles[j] == clamped(c.profiles[j]));
        margins_do_not_matter(
            curve_points(c.profiles[j].points),
            curve_points(profiles[j].points),
            0,
        );
    }
    match first_refused(profiles, 0) {
        Some(i) => {
            assert(profiles[i].fault() == curve_fault(curve_points(c.profiles[i].points)));
            assert(c.profiles[i].name == profiles[i].name);
            assert forall|j: int| 0 <= j < i implies curve_fault(
                curve_points((#[trigger] c.profiles[j]).points),
            ) is None by {
                assert(profiles[j].fault() is None);
            }
        },
        None => {
            assert forall|j: int| 0 <= j < c.profiles.len() implies curve_fault(
                curve_points((#[trigger] c.profiles[j]).points),
            ) is None by {
                assert(profiles[j].fault() is None);
            }
        },
    }
}

proof fn margins_do_not_matter(a: Seq<CurvePoint>, b: Seq<CurvePoint>, i: int)
    requires
        0 <= i,
        a.len() == b.len(),
        forall|k: int|
            0 <= k < a.len() ==> (#[trigger] a[k]).temp == b[k].temp && a[k].level == b[k].level,
    ensures
        crate::curve::first_point_fault(a, i) == crate::curve::first_point_fault(b, i),
    decreases a.len() - i,
{
    if i < a.len() {
        assert(a[i].temp == b[i].temp);
        if i > 0 {
            assert(a[i - 1].temp == b[i - 1].temp);
        }
        assert(crate::curve::point_fault(a, i) == crate::curve::point_fault(b, i));
        margins_do_not_matter(a, b, i + 1);
    }
}

/// Migrating brings the version to 3 and otherwise touches nothing but the
/// profiles: from version 2 on none is added, and from version 3 on none is
/// repaired.
pub proof fn migrating_touches_only_the_profiles(c: ConfigView)
    ensures
        migrated(c) == (ConfigView { version: 3, profiles: migrated(c).profiles, ..c }),
        c.version >= 2 ==> migrated(c).profiles.len() == c.profiles.len(),
        c.version >= 3 ==> migrated(c).profiles == c.profiles,
{
}

proof fn what_is_added(profiles: Seq<ProfileView>, k: int, i: int)
    requires
        0 <= k <= 3,
        profiles.len() <= i < with_built_ins(profiles, k).len(),
    ensures
        exists|j: int|
            {
                &&& k <= j < 3
                &&& with_built_ins(profiles, k)[i] == #[trigger] shipped_profiles()[j]
                &&& !has_profile(profiles, shipped_profiles()[j].name)
            },
    decreases 3 - k,
{
    if k < 3 {
        let name = shipped_profiles()[k].name;
        if has_profile(profiles, name) {
            what_is_added(profiles, k + 1, i);
        } else {
            let next = profiles.push(shipped_profiles()[k]);
            adding_keeps(next, k + 1);
            if i == profiles.len() {
                assert(next[i] == shipped_profiles()[k]);
                assert(with_built_ins(profiles, k)[i] == shipped_profiles()[k]);
            } else {
                what_is_added(next, k + 1, i);
                let j = choose|j: int|
                    {
                        &&& k + 1 <= j < 3
                        &&& with_built_ins(next, k + 1)[i] == #[trigger] shipped_profiles()[j]
                        &&& !has_profile(next, shipped_profiles()[j].name)
                    };
                if has_profile(profiles, shipped_profiles()[j].name) {
                    let m = choose|m: int|
                        0 <= m < profiles.len() && (#[trigger] profiles[m]).name
                            == shipped_profiles()[j].name;
                    assert(next[m].name == shipped_profiles()[j].name);
                }
                assert(with_built_ins(profiles, k)[i] == shipped_profiles()[j]);
            }
        }
    }
}

/// What migrating adds behind the user's profiles are shipped ones, as they
/// ship, and only those whose names were not taken.
pub proof fn migrating_adds_only_missing_built_ins(c: ConfigView, i: int)
    requires
        c.profiles.len() <= i < migrated(c).profiles.len(),
    ensures
        exists|j: int|
            {
                &&& 0 <= j < 3
                &&& migrated(c).profiles[i] == #[trigger] shipped_profiles()[j]
                &&& forall|m: int|
                    0 <= m < c.profiles.len() ==> (#[trigger] c.profiles[m]).name
                        != shipped_profiles()[j].name
            },
{
    what_is_added(c.profiles, 0, i);
    let j = choose|j: int|
        {
            &&& 0 <= j < 3
            &&& with_built_ins(c.profiles, 0)[i] == #[trigger] shipped_profiles()[j]
            &&& !has_profile(c.profiles, shipped_profiles()[j].name)
        };
    assert(shipped_profiles()[j].points.len() >= 2);
    assert(migrated(c).profiles[i] == repaired(shipped_profiles()[j]));
    assert forall|m: int| 0 <= m < c.profiles.len() implies (#[trigger] c.profiles[m]).name
        != shipped_profiles()[j].name by {
        if c.profiles[m].name == shipped_profiles()[j].name {
            assert(has_profile(c.profiles, shipped_profiles()[j].name));
        }
    }
}

/// A repair keeps what is there. A lone point keeps its level and margins, and
/// its temperature but at the very top, and gets a step above it, at 95 or a
/// degree above the point, that hands over to the firmware without margins.
/// A profile without points gets the Balanced ones, and one with two or more
/// stays.
pub proof fn a_repair_keeps_what_is_there(p: ProfileView)
    ensures
        repaired(p).name == p.name,
        p.points.len() >= 2 ==> repaired(p) == p,
        p.points.len() == 0 ==> curve_points(repaired(p).points) == balanced_points(),
        p.points.len() == 1 ==> {
            let was = p.points[0];
            let low = repaired(p).points[0];
            let high = repaired(p).points[1];
            &&& repaired(p).points.len() == 2
            &&& low.level == was.level
            &&& low.hyst_up == was.hyst_up && low.hyst_down == was.hyst_down
            &&& was.temp < 127 ==> low.temp == was.temp
            &&& was.temp == 127 ==> low.temp == 126
            &&& high.temp == (if low.temp < 95 {
                95
            } else {
                low.temp + 1
            })
            &&& high.level == 0x80 && high.hyst_up == 0 && high.hyst_down == 0
        },
{
    storing_keeps_a_curve(balanced_points());
}

/// A file that is not there gives what a fresh install starts with, with a
/// watchdog long enough for the standby poll; one from a later version gives
/// none and says so; any other that could be read gives its migrated and
/// validated settings, or the refusal of its first bad curve.
pub proof fn what_a_file_gives(stored: Config)
    ensures
        Stored::Missing.gives() == Ok::<ConfigView, ConfigErrorView>(
            ConfigView { watchdog_secs: 90, ..fresh() },
        ),
        stored@.version > 3 ==> Stored::Parsed(stored).gives() == Err::<
            ConfigView,
            ConfigErrorView,
        >(ConfigErrorView::FromTheFuture { found: stored@.version, supported: 3 }),
        stored@.version <= 3 ==> (Stored::Parsed(stored).gives() is Err <==> refusal(
            migrated(stored@),
        ) is Some),
        stored@.version <= 3 && refusal(migrated(stored@)) is None ==> Stored::Parsed(
            stored,
        ).gives() == Ok::<ConfigView, ConfigErrorView>(validated(migrated(stored@))),
        stored@.version == 3 && refusal(stored@) is None ==> Stored::Parsed(stored).gives() == Ok::<
            ConfigView,
            ConfigErrorView,
        >(validated(stored@)),
{
    a_fresh_install_validates();
    let f = fresh();
    assert(f.profiles[1].name == f.active_profile);
    assert(has_profile(runnable(f.profiles), f.active_profile));
    assert(validated(f) == (ConfigView { watchdog_secs: 90, ..f }));
}

/// A temperature is shown in Fahrenheit as nine fifths of it, cut toward zero,
/// and 32 more; in Celsius as it is.
pub proof fn a_temperature_is_shown_in_its_unit(celsius: i8)
    ensures
        shown_temp(celsius as int, false) == celsius,
        celsius >= 0 ==> 0 <= 9 * celsius - 5 * (shown_temp(celsius as int, true) - 32) < 5,
        celsius <= 0 ==> 0 <= 5 * (shown_temp(celsius as int, true) - 32) - 9 * celsius < 5,
{
}

/// The settings lie in `Yamato\config.json` under the folder given, and under
/// `C:\ProgramData` where none is.
pub proof fn the_settings_have_a_place(dir: Seq<char>)
    requires
        crate::paths::full_directory(dir),
    ensures
        settings_path(Some(dir)) == dir + seq!['\\'] + "Yamato"@ + seq!['\\'] + "config.json"@,
        settings_path(None) == settings_path(Some("C:\\ProgramData"@)),
{
    reveal_strlit("Yamato");
    reveal_strlit("config.json");
    let folder = dir + seq!['\\'] + "Yamato"@;
    assert("Yamato"@.len() == 6 && "config.json"@.len() == 11);
    assert(seq!['.'].len() == 1 && seq!['.', '.'].len() == 2);
    assert(folder.last() == 'o');
    assert(folder[0] == dir[0] && folder[1] == dir[1] && folder[2] == dir[2]);
    crate::paths::a_file_goes_by_its_name(dir, "Yamato"@, "Yamato"@);
    crate::paths::a_file_goes_by_its_name(folder, "config.json"@, "config.json"@);
}

/// How hard a level drives the fan: the firmware above every level of ours.
pub open spec fn drive(level: u8) -> int {
    if level == 0x80 {
        8
    } else {
        level as int
    }
}

/// Whether one curve is at least as eager as another: whatever step the other
/// has reached, it has reached one that drives the fan as hard.
pub open spec fn as_eager(eager: Seq<CurvePoint>, calm: Seq<CurvePoint>) -> bool {
    forall|i: int|
        0 <= i < calm.len() ==> exists|j: int|
            0 <= j < eager.len() && (#[trigger] eager[j]).temp <= (#[trigger] calm[i]).temp
                && drive(eager[j].level) >= drive(calm[i].level)
}

/// Balanced is as eager as Quiet and Performance as Balanced, and each hands
/// over to the firmware at its last step, below the ceiling.
pub proof fn the_shipped_profiles_differ_in_eagerness()
    ensures
        as_eager(balanced_points(), quiet_points()),
        as_eager(performance_points(), balanced_points()),
        quiet_points().last().level == 0x80 && quiet_points().last().temp == 93,
        balanced_points().last().level == 0x80 && balanced_points().last().temp == 90,
        performance_points().last().level == 0x80 && performance_points().last().temp == 88,
        shipped_profiles().len() == 3,
        shipped_profiles()[0].name == "Quiet"@ && curve_points(shipped_profiles()[0].points)
            == quiet_points(),
        shipped_profiles()[1].name == "Balanced"@ && curve_points(shipped_profiles()[1].points)
            == balanced_points(),
        shipped_profiles()[2].name == "Performance"@ && curve_points(shipped_profiles()[2].points)
            == performance_points(),
{
    let q = quiet_points();
    let b = balanced_points();
    let p = performance_points();
    assert forall|i: int| 0 <= i < q.len() implies exists|j: int|
        0 <= j < b.len() && (#[trigger] b[j]).temp <= (#[trigger] q[i]).temp && drive(b[j].level)
            >= drive(q[i].level) by {
        assert(b[i].temp <= q[i].temp && drive(b[i].level) >= drive(q[i].level));
    }
    assert forall|i: int| 0 <= i < b.len() implies exists|j: int|
        0 <= j < p.len() && (#[trigger] p[j]).temp <= (#[trigger] b[i]).temp && drive(p[j].level)
            >= drive(b[i].level) by {
        let j = if i == 6 {
            7
        } else {
            i
        };
        assert(p[j].temp <= b[i].temp && drive(p[j].level) >= drive(b[i].level));
    }
    assert(curve_points(stored_points(q)) =~= q);
    assert(curve_points(stored_points(b)) =~= b);
    assert(curve_points(stored_points(p)) =~= p);
}

/// What a fresh install starts as: its own curve followed, a reading every
/// five seconds and every thirty in standby, a manual level given up at 80
/// degrees, eight megabytes of log that is off, and numbers in the tray.
pub proof fn a_fresh_install_is_set_up()
    ensures
        ({
            let c = fresh();
            &&& c.version == 3
            &&& c.poll_secs == 5 && c.standby_poll_secs == 30
            &&& c.startup_mode == StartupMode::Smart
            &&& c.active_profile == "Balanced"@
            &&& c.profiles == shipped_profiles()
            &&& c.ignored_sensors.len() == 0
            &&& c.manual_escape_c == 80
            &&& !c.log_enabled && c.log_max_mb == 8
            &&& !c.fahrenheit && !c.show_window_on_start
            &&& c.tray_numbers && c.tray_sensor is None
            &&& !c.single_fan && c.ec_layout is None
        }),
{
}

/// A byte order mark in front of the settings is dropped, and only there.
pub proof fn a_mark_in_front_is_dropped(text: Seq<char>)
    ensures
        unmarked(seq!['\u{feff}'] + text) == text,
        !(text.len() > 0 && text[0] == '\u{feff}') ==> unmarked(text) == text,
{
    assert((seq!['\u{feff}'] + text).subrange(1, text.len() as int + 1) =~= text);
}

/// The least watchdog is three times the slower poll, and where no number
/// holds that, the largest one.
pub proof fn a_watchdog_outlasts_three_polls(poll_secs: u32, standby_poll_secs: u32)
    ensures
        ({
            let floor = floor_of(poll_secs, standby_poll_secs);
            if 3 * poll_secs > 0xffff_ffff || 3 * standby_poll_secs > 0xffff_ffff {
                floor == 0xffff_ffff
            } else {
                &&& floor >= 3 * poll_secs && floor >= 3 * standby_poll_secs
                &&& floor == 3 * poll_secs || floor == 3 * standby_poll_secs
            }
        }),
{
}

} // verus!
