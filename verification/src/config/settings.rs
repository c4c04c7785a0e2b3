//! Typed settings sections.
//!
//! Every subsystem owns one section. Sections implement load and store so a
//! new option is added in exactly one place, and the generated INI carries
//! inline documentation for the operator.
//!
//! Values are validated on load. Anything that could destabilize a consumer
//! is clamped.

use vstd::prelude::*;
use crate::config::ini::ConfigEnum;
use crate::common::log::Level;
use crate::text::{lemma_plain_text, lower_seq, plain_text, str_eq, trim};

verus! {

/// Capture API.
///
/// The direction is not part of this: WASAPI exposes both input endpoints and
/// output endpoints, the latter readable through the loopback path, and which
/// one is used follows from the selected device rather than from a separate
/// mode. The trait is implemented by hand instead of through the macro so the
/// identifier written by earlier builds keeps loading.
#[derive(Debug, Clone, Copy, PartialEq, Eq, Structural)]
pub enum AudioBackend {
    Wasapi,
    WaveIn,
}

impl ConfigEnum for AudioBackend {
    open spec fn spec_from_config(text: Seq<char>) -> Option<Self> {
        if text == "wasapi"@ || text == "wasapi_loopback"@ {
            Some(AudioBackend::Wasapi)
        } else if text == "wavein"@ || text == "waveein"@ {
            Some(AudioBackend::WaveIn)
        } else {
            None
        }
    }

    open spec fn spec_to_config(&self) -> Seq<char> {
        match self {
            AudioBackend::Wasapi => "wasapi"@,
            AudioBackend::WaveIn => "wavein"@,
        }
    }

    open spec fn spec_variants() -> Seq<Seq<char>> {
        seq!["wasapi"@, "wavein"@]
    }

    fn from_config(text: &str) -> (r: Option<Self>) {
        if str_eq(text, "wasapi") || str_eq(text, "wasapi_loopback") {
            Some(AudioBackend::Wasapi)
        } else if str_eq(text, "wavein") || str_eq(text, "waveein") {
            Some(AudioBackend::WaveIn)
        } else {
            None
        }
    }

    fn to_config(&self) -> (r: &'static str) {
        match self {
            AudioBackend::Wasapi => "wasapi",
            AudioBackend::WaveIn => "wavein",
        }
    }

    fn variants() -> (r: Vec<&'static str>) {
        let r = vec!["wasapi", "wavein"];
        assert(r@.len() == Self::spec_variants().len());
        r
    }
}

impl Default for AudioBackend {
    fn default() -> (r: Self)
        ensures
            r == AudioBackend::Wasapi,
    {
        AudioBackend::Wasapi
    }
}

/// The text a AudioBackend value is written as reads back as the same value.
pub proof fn lemma_audio_backend_text(x: AudioBackend)
    ensures
        AudioBackend::spec_from_config(lower_seq(trim(x.spec_to_config()))) == Some(x),
        plain_text(x.spec_to_config()),
{
    reveal_with_fuel(plain_text, 20);
    reveal_strlit("wasapi");
    reveal_strlit("wasapi_loopback");
    reveal_strlit("waveein");
    reveal_strlit("wavein");
    assert("wasapi"@[2] != "wavein"@[2]);
    lemma_plain_text(x.spec_to_config());
}

#[derive(Debug, Clone, Copy, PartialEq, Eq, Structural)]
pub enum ChannelMode {
    Left,
    Right,
    Mix,
    Difference,
}

impl ConfigEnum for ChannelMode {
    open spec fn spec_from_config(text: Seq<char>) -> Option<Self> {
        if text == "left"@ {
            Some(ChannelMode::Left)
        } else if text == "right"@ {
            Some(ChannelMode::Right)
        } else if text == "mix"@ {
            Some(ChannelMode::Mix)
        } else if text == "difference"@ {
            Some(ChannelMode::Difference)
        } else {
            None
        }
    }

    open spec fn spec_to_config(&self) -> Seq<char> {
        match self {
            ChannelMode::Left => "left"@,
            ChannelMode::Right => "right"@,
            ChannelMode::Mix => "mix"@,
            ChannelMode::Difference => "difference"@,
        }
    }

    open spec fn spec_variants() -> Seq<Seq<char>> {
        seq!["left"@, "right"@, "mix"@, "difference"@]
    }

    fn from_config(text: &str) -> (r: Option<Self>) {
        if str_eq(text, "left") {
            Some(ChannelMode::Left)
        } else if str_eq(text, "right") {
            Some(ChannelMode::Right)
        } else if str_eq(text, "mix") {
            Some(ChannelMode::Mix)
        } else if str_eq(text, "difference") {
            Some(ChannelMode::Difference)
        } else {
            None
        }
    }

    fn to_config(&self) -> (r: &'static str) {
        match self {
            ChannelMode::Left => "left",
            ChannelMode::Right => "right",
            ChannelMode::Mix => "mix",
            ChannelMode::Difference => "difference",
        }
    }

    fn variants() -> (r: Vec<&'static str>) {
        let r = vec!["left", "right", "mix", "difference"];
        assert(r@.len() == Self::spec_variants().len());
        r
    }
}

impl Default for ChannelMode {
    fn default() -> (r: Self)
        ensures
            r == ChannelMode::Left,
    {
        ChannelMode::Left
    }
}

/// The text a ChannelMode value is written as reads back as the same value.
pub proof fn lemma_channel_mode_text(x: ChannelMode)
    ensures
        ChannelMode::spec_from_config(lower_seq(trim(x.spec_to_config()))) == Some(x),
        plain_text(x.spec_to_config()),
{
    reveal_with_fuel(plain_text, 20);
    reveal_strlit("difference");
    reveal_strlit("left");
    reveal_strlit("mix");
    reveal_strlit("right");
    lemma_plain_text(x.spec_to_config());
}

#[derive(Debug, Clone, Copy, PartialEq, Eq, Structural)]
pub enum WindowFn {
    Rectangular,
    Hann,
    Hamming,
    Blackman,
    BlackmanHarris,
    Nuttall,
    FlatTop,
    Kaiser,
}

impl ConfigEnum for WindowFn {
    open spec fn spec_from_config(text: Seq<char>) -> Option<Self> {
        if text == "rectangular"@ {
            Some(WindowFn::Rectangular)
        } else if text == "hann"@ {
            Some(WindowFn::Hann)
        } else if text == "hamming"@ {
            Some(WindowFn::Hamming)
        } else if text == "blackman"@ {
            Some(WindowFn::Blackman)
        } else if text == "blackman_harris"@ {
            Some(WindowFn::BlackmanHarris)
        } else if text == "nuttall"@ {
            Some(WindowFn::Nuttall)
        } else if text == "flattop"@ {
            Some(WindowFn::FlatTop)
        } else if text == "kaiser"@ {
            Some(WindowFn::Kaiser)
        } else {
            None
        }
    }

    open spec fn spec_to_config(&self) -> Seq<char> {
        match self {
            WindowFn::Rectangular => "rectangular"@,
            WindowFn::Hann => "hann"@,
            WindowFn::Hamming => "hamming"@,
            WindowFn::Blackman => "blackman"@,
            WindowFn::BlackmanHarris => "blackman_harris"@,
            WindowFn::Nuttall => "nuttall"@,
            WindowFn::FlatTop => "flattop"@,
            WindowFn::Kaiser => "kaiser"@,
        }
    }

    open spec fn spec_variants() -> Seq<Seq<char>> {
        seq!["rectangular"@, "hann"@, "hamming"@, "blackman"@, "blackman_harris"@, "nuttall"@, "flattop"@, "kaiser"@]
    }

    fn from_config(text: &str) -> (r: Option<Self>) {
        if str_eq(text, "rectangular") {
            Some(WindowFn::Rectangular)
        } else if str_eq(text, "hann") {
            Some(WindowFn::Hann)
        } else if str_eq(text, "hamming") {
            Some(WindowFn::Hamming)
        } else if str_eq(text, "blackman") {
            Some(WindowFn::Blackman)
        } else if str_eq(text, "blackman_harris") {
            Some(WindowFn::BlackmanHarris)
        } else if str_eq(text, "nuttall") {
            Some(WindowFn::Nuttall)
        } else if str_eq(text, "flattop") {
            Some(WindowFn::FlatTop)
        } else if str_eq(text, "kaiser") {
            Some(WindowFn::Kaiser)
        } else {
            None
        }
    }

    fn to_config(&self) -> (r: &'static str) {
        match self {
            WindowFn::Rectangular => "rectangular",
            WindowFn::Hann => "hann",
            WindowFn::Hamming => "hamming",
            WindowFn::Blackman => "blackman",
            WindowFn::BlackmanHarris => "blackman_harris",
            WindowFn::Nuttall => "nuttall",
            WindowFn::FlatTop => "flattop",
            WindowFn::Kaiser => "kaiser",
        }
    }

    fn variants() -> (r: Vec<&'static str>) {
        let r = vec!["rectangular", "hann", "hamming", "blackman", "blackman_harris", "nuttall", "flattop", "kaiser"];
        assert(r@.len() == Self::spec_variants().len());
        r
    }
}

impl Default for WindowFn {
    fn default() -> (r: Self)
        ensures
            r == WindowFn::BlackmanHarris,
    {
        WindowFn::BlackmanHarris
    }
}

/// The text a WindowFn value is written as reads back as the same value.
#[verifier::rlimit(50)]
pub proof fn lemma_window_fn_text(x: WindowFn)
    ensures
        WindowFn::spec_from_config(lower_seq(trim(x.spec_to_config()))) == Some(x),
        plain_text(x.spec_to_config()),
{
    reveal_with_fuel(plain_text, 20);
    reveal_strlit("blackman");
    reveal_strlit("blackman_harris");
    reveal_strlit("flattop");
    reveal_strlit("hamming");
    reveal_strlit("hann");
    reveal_strlit("kaiser");
    reveal_strlit("nuttall");
    reveal_strlit("rectangular");
    assert("flattop"@[0] != "hamming"@[0]);
    assert("flattop"@[0] != "nuttall"@[0]);
    assert("hamming"@[0] != "nuttall"@[0]);
    lemma_plain_text(x.spec_to_config());
}

#[derive(Debug, Clone, Copy, PartialEq, Eq, Structural)]
pub enum ColorMap {
    Grayscale,
    BlueSteel,
    Inferno,
    Viridis,
    Turbo,
}

impl ConfigEnum for ColorMap {
    open spec fn spec_from_config(text: Seq<char>) -> Option<Self> {
        if text == "grayscale"@ {
            Some(ColorMap::Grayscale)
        } else if text == "blue_steel"@ {
            Some(ColorMap::BlueSteel)
        } else if text == "inferno"@ {
            Some(ColorMap::Inferno)
        } else if text == "viridis"@ {
            Some(ColorMap::Viridis)
        } else if text == "turbo"@ {
            Some(ColorMap::Turbo)
        } else {
            None
        }
    }

    open spec fn spec_to_config(&self) -> Seq<char> {
        match self {
            ColorMap::Grayscale => "grayscale"@,
            ColorMap::BlueSteel => "blue_steel"@,
            ColorMap::Inferno => "inferno"@,
            ColorMap::Viridis => "viridis"@,
            ColorMap::Turbo => "turbo"@,
        }
    }

    open spec fn spec_variants() -> Seq<Seq<char>> {
        seq!["grayscale"@, "blue_steel"@, "inferno"@, "viridis"@, "turbo"@]
    }

    fn from_config(text: &str) -> (r: Option<Self>) {
        if str_eq(text, "grayscale") {
            Some(ColorMap::Grayscale)
        } else if str_eq(text, "blue_steel") {
            Some(ColorMap::BlueSteel)
        } else if str_eq(text, "inferno") {
            Some(ColorMap::Inferno)
        } else if str_eq(text, "viridis") {
            Some(ColorMap::Viridis)
        } else if str_eq(text, "turbo") {
            Some(ColorMap::Turbo)
        } else {
            None
        }
    }

    fn to_config(&self) -> (r: &'static str) {
        match self {
            ColorMap::Grayscale => "grayscale",
            ColorMap::BlueSteel => "blue_steel",
            ColorMap::Inferno => "inferno",
            ColorMap::Viridis => "viridis",
            ColorMap::Turbo => "turbo",
        }
    }

    fn variants() -> (r: Vec<&'static str>) {
        let r = vec!["grayscale", "blue_steel", "inferno", "viridis", "turbo"];
        assert(r@.len() == Self::spec_variants().len());
        r
    }
}

impl Default for ColorMap {
    fn default() -> (r: Self)
        ensures
            r == ColorMap::BlueSteel,
    {
        ColorMap::BlueSteel
    }
}

/// The text a ColorMap value is written as reads back as the same value.
pub proof fn lemma_color_map_text(x: ColorMap)
    ensures
        ColorMap::spec_from_config(lower_seq(trim(x.spec_to_config()))) == Some(x),
        plain_text(x.spec_to_config()),
{
    reveal_with_fuel(plain_text, 20);
    reveal_strlit("blue_steel");
    reveal_strlit("grayscale");
    reveal_strlit("inferno");
    reveal_strlit("turbo");
    reveal_strlit("viridis");
    assert("inferno"@[0] != "viridis"@[0]);
    lemma_plain_text(x.spec_to_config());
}

#[derive(Debug, Clone, Copy, PartialEq, Eq, Structural)]
pub enum WaterfallStyle {
    Classic,
    Skimmer,
}

impl ConfigEnum for WaterfallStyle {
    open spec fn spec_from_config(text: Seq<char>) -> Option<Self> {
        if text == "classic"@ {
            Some(WaterfallStyle::Classic)
        } else if text == "skimmer"@ {
            Some(WaterfallStyle::Skimmer)
        } else {
            None
        }
    }

    open spec fn spec_to_config(&self) -> Seq<char> {
        match self {
            WaterfallStyle::Classic => "classic"@,
            WaterfallStyle::Skimmer => "skimmer"@,
        }
    }

    open spec fn spec_variants() -> Seq<Seq<char>> {
        seq!["classic"@, "skimmer"@]
    }

    fn from_config(text: &str) -> (r: Option<Self>) {
        if str_eq(text, "classic") {
            Some(WaterfallStyle::Classic)
        } else if str_eq(text, "skimmer") {
            Some(WaterfallStyle::Skimmer)
        } else {
            None
        }
    }

    fn to_config(&self) -> (r: &'static str) {
        match self {
            WaterfallStyle::Classic => "classic",
            WaterfallStyle::Skimmer => "skimmer",
        }
    }

    fn variants() -> (r: Vec<&'static str>) {
        let r = vec!["classic", "skimmer"];
        assert(r@.len() == Self::spec_variants().len());
        r
    }
}

impl Default for WaterfallStyle {
    fn default() -> (r: Self)
        ensures
            r == WaterfallStyle::Classic,
    {
        WaterfallStyle::Classic
    }
}

/// The text a WaterfallStyle value is written as reads back as the same value.
pub proof fn lemma_waterfall_style_text(x: WaterfallStyle)
    ensures
        WaterfallStyle::spec_from_config(lower_seq(trim(x.spec_to_config()))) == Some(x),
        plain_text(x.spec_to_config()),
{
    reveal_with_fuel(plain_text, 20);
    reveal_strlit("classic");
    reveal_strlit("skimmer");
    assert("classic"@[0] != "skimmer"@[0]);
    lemma_plain_text(x.spec_to_config());
}

/// What follows the dial when it moves.
///
/// The audio span is centred on the dial by construction, so a retune moves
/// every station to a different audio frequency. Three answers, and the last two
/// differ only in whether the view moves with the record.
#[derive(Debug, Clone, Copy, PartialEq, Eq, Structural)]
pub enum AnchorMode {
    Off,
    Audio,
    Band,
}

impl ConfigEnum for AnchorMode {
    open spec fn spec_from_config(text: Seq<char>) -> Option<Self> {
        if text == "off"@ {
            Some(AnchorMode::Off)
        } else if text == "audio"@ {
            Some(AnchorMode::Audio)
        } else if text == "band"@ {
            Some(AnchorMode::Band)
        } else {
            None
        }
    }

    open spec fn spec_to_config(&self) -> Seq<char> {
        match self {
            AnchorMode::Off => "off"@,
            AnchorMode::Audio => "audio"@,
            AnchorMode::Band => "band"@,
        }
    }

    open spec fn spec_variants() -> Seq<Seq<char>> {
        seq!["off"@, "audio"@, "band"@]
    }

    fn from_config(text: &str) -> (r: Option<Self>) {
        if str_eq(text, "off") {
            Some(AnchorMode::Off)
        } else if str_eq(text, "audio") {
            Some(AnchorMode::Audio)
        } else if str_eq(text, "band") {
            Some(AnchorMode::Band)
        } else {
            None
        }
    }

    fn to_config(&self) -> (r: &'static str) {
        match self {
            AnchorMode::Off => "off",
            AnchorMode::Audio => "audio",
            AnchorMode::Band => "band",
        }
    }

    fn variants() -> (r: Vec<&'static str>) {
        let r = vec!["off", "audio", "band"];
        assert(r@.len() == Self::spec_variants().len());
        r
    }
}

impl Default for AnchorMode {
    fn default() -> (r: Self)
        ensures
            r == AnchorMode::Audio,
    {
        AnchorMode::Audio
    }
}

/// The text a AnchorMode value is written as reads back as the same value.
pub proof fn lemma_anchor_mode_text(x: AnchorMode)
    ensures
        AnchorMode::spec_from_config(lower_seq(trim(x.spec_to_config()))) == Some(x),
        plain_text(x.spec_to_config()),
{
    reveal_with_fuel(plain_text, 20);
    reveal_strlit("audio");
    reveal_strlit("band");
    reveal_strlit("off");
    lemma_plain_text(x.spec_to_config());
}

/// Shape of an interface animation.
///
/// One curve rather than one per direction. The phase moves linearly in both
/// directions and the curve is applied to it, so a curve that is fast at the
/// start and gentle at the end reads that way on the way in and reads as the
/// mirror on the way out. That pair is the correct one: the first pixels of
/// motion are what tell the operator the press registered, so a slow start
/// reads as a stall, while a dismissal may accelerate away.
///
/// A slow start on appearance is therefore not offered. It would be a setting
/// that can only be set wrong.
#[derive(Debug, Clone, Copy, PartialEq, Eq, Structural)]
pub enum AnimCurve {
    Linear,
    EaseOut,
    EaseInOut,
}

impl ConfigEnum for AnimCurve {
    open spec fn spec_from_config(text: Seq<char>) -> Option<Self> {
        if text == "linear"@ {
            Some(AnimCurve::Linear)
        } else if text == "ease_out"@ {
            Some(AnimCurve::EaseOut)
        } else if text == "ease_in_out"@ {
            Some(AnimCurve::EaseInOut)
        } else {
            None
        }
    }

    open spec fn spec_to_config(&self) -> Seq<char> {
        match self {
            AnimCurve::Linear => "linear"@,
            AnimCurve::EaseOut => "ease_out"@,
            AnimCurve::EaseInOut => "ease_in_out"@,
        }
    }

    open spec fn spec_variants() -> Seq<Seq<char>> {
        seq!["linear"@, "ease_out"@, "ease_in_out"@]
    }

    fn from_config(text: &str) -> (r: Option<Self>) {
        if str_eq(text, "linear") {
            Some(AnimCurve::Linear)
        } else if str_eq(text, "ease_out") {
            Some(AnimCurve::EaseOut)
        } else if str_eq(text, "ease_in_out") {
            Some(AnimCurve::EaseInOut)
        } else {
            None
        }
    }

    fn to_config(&self) -> (r: &'static str) {
        match self {
            AnimCurve::Linear => "linear",
            AnimCurve::EaseOut => "ease_out",
            AnimCurve::EaseInOut => "ease_in_out",
        }
    }

    fn variants() -> (r: Vec<&'static str>) {
        let r = vec!["linear", "ease_out", "ease_in_out"];
        assert(r@.len() == Self::spec_variants().len());
        r
    }
}

impl Default for AnimCurve {
    fn default() -> (r: Self)
        ensures
            r == AnimCurve::EaseOut,
    {
        AnimCurve::EaseOut
    }
}

/// The text a AnimCurve value is written as reads back as the same value.
pub proof fn lemma_anim_curve_text(x: AnimCurve)
    ensures
        AnimCurve::spec_from_config(lower_seq(trim(x.spec_to_config()))) == Some(x),
        plain_text(x.spec_to_config()),
{
    reveal_with_fuel(plain_text, 20);
    reveal_strlit("ease_in_out");
    reveal_strlit("ease_out");
    reveal_strlit("linear");
    lemma_plain_text(x.spec_to_config());
}

/// How a selected tab is marked.
///
/// Two idioms exist and using both at once is what makes a strip look
/// unfinished: an underline states the selection with one mark, an attached
/// tab states it by continuing the surface below. Either is defensible, the
/// pair is not.
#[derive(Debug, Clone, Copy, PartialEq, Eq, Structural)]
pub enum TabStyle {
    Underline,
    Attached,
}

impl ConfigEnum for TabStyle {
    open spec fn spec_from_config(text: Seq<char>) -> Option<Self> {
        if text == "underline"@ {
            Some(TabStyle::Underline)
        } else if text == "attached"@ {
            Some(TabStyle::Attached)
        } else {
            None
        }
    }

    open spec fn spec_to_config(&self) -> Seq<char> {
        match self {
            TabStyle::Underline => "underline"@,
            TabStyle::Attached => "attached"@,
        }
    }

    open spec fn spec_variants() -> Seq<Seq<char>> {
        seq!["underline"@, "attached"@]
    }

    fn from_config(text: &str) -> (r: Option<Self>) {
        if str_eq(text, "underline") {
            Some(TabStyle::Underline)
        } else if str_eq(text, "attached") {
            Some(TabStyle::Attached)
        } else {
            None
        }
    }

    fn to_config(&self) -> (r: &'static str) {
        match self {
            TabStyle::Underline => "underline",
            TabStyle::Attached => "attached",
        }
    }

    fn variants() -> (r: Vec<&'static str>) {
        let r = vec!["underline", "attached"];
        assert(r@.len() == Self::spec_variants().len());
        r
    }
}

impl Default for TabStyle {
    fn default() -> (r: Self)
        ensures
            r == TabStyle::Underline,
    {
        TabStyle::Underline
    }
}

/// The text a TabStyle value is written as reads back as the same value.
pub proof fn lemma_tab_style_text(x: TabStyle)
    ensures
        TabStyle::spec_from_config(lower_seq(trim(x.spec_to_config()))) == Some(x),
        plain_text(x.spec_to_config()),
{
    reveal_with_fuel(plain_text, 20);
    reveal_strlit("attached");
    reveal_strlit("underline");
    lemma_plain_text(x.spec_to_config());
}

#[derive(Debug, Clone, Copy, PartialEq, Eq, Structural)]
pub enum PanelSection {
    Rig,
    Receiver,
    Meter,
    Audio,
    Monitor,
    Spectrum,
    Waterfall,
    CwChannels,
    CwDecoder,
    RttyDecoder,
    PskDecoder,
    Classifier,
    Callsign,
    Spots,
}

impl ConfigEnum for PanelSection {
    open spec fn spec_from_config(text: Seq<char>) -> Option<Self> {
        if text == "rig"@ {
            Some(PanelSection::Rig)
        } else if text == "receiver"@ {
            Some(PanelSection::Receiver)
        } else if text == "meter"@ {
            Some(PanelSection::Meter)
        } else if text == "audio"@ {
            Some(PanelSection::Audio)
        } else if text == "monitor"@ {
            Some(PanelSection::Monitor)
        } else if text == "spectrum"@ {
            Some(PanelSection::Spectrum)
        } else if text == "waterfall"@ {
            Some(PanelSection::Waterfall)
        } else if text == "cw_channels"@ {
            Some(PanelSection::CwChannels)
        } else if text == "cw_decoder"@ {
            Some(PanelSection::CwDecoder)
        } else if text == "rtty_decoder"@ {
            Some(PanelSection::RttyDecoder)
        } else if text == "psk_decoder"@ {
            Some(PanelSection::PskDecoder)
        } else if text == "classifier"@ {
            Some(PanelSection::Classifier)
        } else if text == "callsign"@ {
            Some(PanelSection::Callsign)
        } else if text == "spots"@ {
            Some(PanelSection::Spots)
        } else {
            None
        }
    }

    open spec fn spec_to_config(&self) -> Seq<char> {
        match self {
            PanelSection::Rig => "rig"@,
            PanelSection::Receiver => "receiver"@,
            PanelSection::Meter => "meter"@,
            PanelSection::Audio => "audio"@,
            PanelSection::Monitor => "monitor"@,
            PanelSection::Spectrum => "spectrum"@,
            PanelSection::Waterfall => "waterfall"@,
            PanelSection::CwChannels => "cw_channels"@,
            PanelSection::CwDecoder => "cw_decoder"@,
            PanelSection::RttyDecoder => "rtty_decoder"@,
            PanelSection::PskDecoder => "psk_decoder"@,
            PanelSection::Classifier => "classifier"@,
            PanelSection::Callsign => "callsign"@,
            PanelSection::Spots => "spots"@,
        }
    }

    open spec fn spec_variants() -> Seq<Seq<char>> {
        seq!["rig"@, "receiver"@, "meter"@, "audio"@, "monitor"@, "spectrum"@, "waterfall"@, "cw_channels"@, "cw_decoder"@, "rtty_decoder"@, "psk_decoder"@, "classifier"@, "callsign"@, "spots"@]
    }

    fn from_config(text: &str) -> (r: Option<Self>) {
        if str_eq(text, "rig") {
            Some(PanelSection::Rig)
        } else if str_eq(text, "receiver") {
            Some(PanelSection::Receiver)
        } else if str_eq(text, "meter") {
            Some(PanelSection::Meter)
        } else if str_eq(text, "audio") {
            Some(PanelSection::Audio)
        } else if str_eq(text, "monitor") {
            Some(PanelSection::Monitor)
        } else if str_eq(text, "spectrum") {
            Some(PanelSection::Spectrum)
        } else if str_eq(text, "waterfall") {
            Some(PanelSection::Waterfall)
        } else if str_eq(text, "cw_channels") {
            Some(PanelSection::CwChannels)
        } else if str_eq(text, "cw_decoder") {
            Some(PanelSection::CwDecoder)
        } else if str_eq(text, "rtty_decoder") {
            Some(PanelSection::RttyDecoder)
        } else if str_eq(text, "psk_decoder") {
            Some(PanelSection::PskDecoder)
        } else if str_eq(text, "classifier") {
            Some(PanelSection::Classifier)
        } else if str_eq(text, "callsign") {
            Some(PanelSection::Callsign)
        } else if str_eq(text, "spots") {
            Some(PanelSection::Spots)
        } else {
            None
        }
    }

    fn to_config(&self) -> (r: &'static str) {
        match self {
            PanelSection::Rig => "rig",
            PanelSection::Receiver => "receiver",
            PanelSection::Meter => "meter",
            PanelSection::Audio => "audio",
            PanelSection::Monitor => "monitor",
            PanelSection::Spectrum => "spectrum",
            PanelSection::Waterfall => "waterfall",
            PanelSection::CwChannels => "cw_channels",
            PanelSection::CwDecoder => "cw_decoder",
            PanelSection::RttyDecoder => "rtty_decoder",
            PanelSection::PskDecoder => "psk_decoder",
            PanelSection::Classifier => "classifier",
            PanelSection::Callsign => "callsign",
            PanelSection::Spots => "spots",
        }
    }

    fn variants() -> (r: Vec<&'static str>) {
        let r = vec!["rig", "receiver", "meter", "audio", "monitor", "spectrum", "waterfall", "cw_channels", "cw_decoder", "rtty_decoder", "psk_decoder", "classifier", "callsign", "spots"];
        assert(r@.len() == Self::spec_variants().len());
        r
    }
}

impl Default for PanelSection {
    fn default() -> (r: Self)
        ensures
            r == PanelSection::Meter,
    {
        PanelSection::Meter
    }
}

/// The text a PanelSection value is written as reads back as the same value.
#[verifier::rlimit(50)]
pub proof fn lemma_panel_section_text(x: PanelSection)
    ensures
        PanelSection::spec_from_config(lower_seq(trim(x.spec_to_config()))) == Some(x),
        plain_text(x.spec_to_config()),
{
    reveal_with_fuel(plain_text, 20);
    reveal_strlit("audio");
    reveal_strlit("callsign");
    reveal_strlit("classifier");
    reveal_strlit("cw_channels");
    reveal_strlit("cw_decoder");
    reveal_strlit("meter");
    reveal_strlit("monitor");
    reveal_strlit("psk_decoder");
    reveal_strlit("receiver");
    reveal_strlit("rig");
    reveal_strlit("rtty_decoder");
    reveal_strlit("spectrum");
    reveal_strlit("spots");
    reveal_strlit("waterfall");
    assert("audio"@[0] != "meter"@[0]);
    assert("audio"@[0] != "spots"@[0]);
    assert("callsign"@[0] != "receiver"@[0]);
    assert("callsign"@[0] != "spectrum"@[0]);
    assert("classifier"@[1] != "cw_decoder"@[1]);
    assert("cw_channels"@[0] != "psk_decoder"@[0]);
    assert("meter"@[0] != "spots"@[0]);
    assert("receiver"@[0] != "spectrum"@[0]);
    lemma_plain_text(x.spec_to_config());
}

#[derive(Debug, Clone, Copy, PartialEq, Eq, Structural)]
pub enum MeterScale {
    SUnits,
    Dbm,
    DbFs,
}

impl ConfigEnum for MeterScale {
    open spec fn spec_from_config(text: Seq<char>) -> Option<Self> {
        if text == "s_units"@ {
            Some(MeterScale::SUnits)
        } else if text == "dbm"@ {
            Some(MeterScale::Dbm)
        } else if text == "dbfs"@ {
            Some(MeterScale::DbFs)
        } else {
            None
        }
    }

    open spec fn spec_to_config(&self) -> Seq<char> {
        match self {
            MeterScale::SUnits => "s_units"@,
            MeterScale::Dbm => "dbm"@,
            MeterScale::DbFs => "dbfs"@,
        }
    }

    open spec fn spec_variants() -> Seq<Seq<char>> {
        seq!["s_units"@, "dbm"@, "dbfs"@]
    }

    fn from_config(text: &str) -> (r: Option<Self>) {
        if str_eq(text, "s_units") {
            Some(MeterScale::SUnits)
        } else if str_eq(text, "dbm") {
            Some(MeterScale::Dbm)
        } else if str_eq(text, "dbfs") {
            Some(MeterScale::DbFs)
        } else {
            None
        }
    }

    fn to_config(&self) -> (r: &'static str) {
        match self {
            MeterScale::SUnits => "s_units",
            MeterScale::Dbm => "dbm",
            MeterScale::DbFs => "dbfs",
        }
    }

    fn variants() -> (r: Vec<&'static str>) {
        let r = vec!["s_units", "dbm", "dbfs"];
        assert(r@.len() == Self::spec_variants().len());
        r
    }
}

impl Default for MeterScale {
    fn default() -> (r: Self)
        ensures
            r == MeterScale::SUnits,
    {
        MeterScale::SUnits
    }
}

/// The text a MeterScale value is written as reads back as the same value.
pub proof fn lemma_meter_scale_text(x: MeterScale)
    ensures
        MeterScale::spec_from_config(lower_seq(trim(x.spec_to_config()))) == Some(x),
        plain_text(x.spec_to_config()),
{
    reveal_with_fuel(plain_text, 20);
    reveal_strlit("dbfs");
    reveal_strlit("dbm");
    reveal_strlit("s_units");
    lemma_plain_text(x.spec_to_config());
}

#[derive(Debug, Clone, Copy, PartialEq, Eq, Structural)]
pub enum TextCase {
    Upper,
    Lower,
    AsReceived,
}

impl ConfigEnum for TextCase {
    open spec fn spec_from_config(text: Seq<char>) -> Option<Self> {
        if text == "upper"@ {
            Some(TextCase::Upper)
        } else if text == "lower"@ {
            Some(TextCase::Lower)
        } else if text == "as_received"@ {
            Some(TextCase::AsReceived)
        } else {
            None
        }
    }

    open spec fn spec_to_config(&self) -> Seq<char> {
        match self {
            TextCase::Upper => "upper"@,
            TextCase::Lower => "lower"@,
            TextCase::AsReceived => "as_received"@,
        }
    }

    open spec fn spec_variants() -> Seq<Seq<char>> {
        seq!["upper"@, "lower"@, "as_received"@]
    }

    fn from_config(text: &str) -> (r: Option<Self>) {
        if str_eq(text, "upper") {
            Some(TextCase::Upper)
        } else if str_eq(text, "lower") {
            Some(TextCase::Lower)
        } else if str_eq(text, "as_received") {
            Some(TextCase::AsReceived)
        } else {
            None
        }
    }

    fn to_config(&self) -> (r: &'static str) {
        match self {
            TextCase::Upper => "upper",
            TextCase::Lower => "lower",
            TextCase::AsReceived => "as_received",
        }
    }

    fn variants() -> (r: Vec<&'static str>) {
        let r = vec!["upper", "lower", "as_received"];
        assert(r@.len() == Self::spec_variants().len());
        r
    }
}

impl Default for TextCase {
    fn default() -> (r: Self)
        ensures
            r == TextCase::Upper,
    {
        TextCase::Upper
    }
}

/// The text a TextCase value is written as reads back as the same value.
pub proof fn lemma_text_case_text(x: TextCase)
    ensures
        TextCase::spec_from_config(lower_seq(trim(x.spec_to_config()))) == Some(x),
        plain_text(x.spec_to_config()),
{
    reveal_with_fuel(plain_text, 20);
    reveal_strlit("as_received");
    reveal_strlit("lower");
    reveal_strlit("upper");
    assert("lower"@[0] != "upper"@[0]);
    lemma_plain_text(x.spec_to_config());
}

#[derive(Debug, Clone, Copy, PartialEq, Eq, Structural)]
pub enum RttyAlphabet {
    Baudot,
    Ascii,
}

impl ConfigEnum for RttyAlphabet {
    open spec fn spec_from_config(text: Seq<char>) -> Option<Self> {
        if text == "baudot"@ {
            Some(RttyAlphabet::Baudot)
        } else if text == "ascii"@ {
            Some(RttyAlphabet::Ascii)
        } else {
            None
        }
    }

    open spec fn spec_to_config(&self) -> Seq<char> {
        match self {
            RttyAlphabet::Baudot => "baudot"@,
            RttyAlphabet::Ascii => "ascii"@,
        }
    }

    open spec fn spec_variants() -> Seq<Seq<char>> {
        seq!["baudot"@, "ascii"@]
    }

    fn from_config(text: &str) -> (r: Option<Self>) {
        if str_eq(text, "baudot") {
            Some(RttyAlphabet::Baudot)
        } else if str_eq(text, "ascii") {
            Some(RttyAlphabet::Ascii)
        } else {
            None
        }
    }

    fn to_config(&self) -> (r: &'static str) {
        match self {
            RttyAlphabet::Baudot => "baudot",
            RttyAlphabet::Ascii => "ascii",
        }
    }

    fn variants() -> (r: Vec<&'static str>) {
        let r = vec!["baudot", "ascii"];
        assert(r@.len() == Self::spec_variants().len());
        r
    }
}

impl Default for RttyAlphabet {
    fn default() -> (r: Self)
        ensures
            r == RttyAlphabet::Baudot,
    {
        RttyAlphabet::Baudot
    }
}

/// The text a RttyAlphabet value is written as reads back as the same value.
pub proof fn lemma_rtty_alphabet_text(x: RttyAlphabet)
    ensures
        RttyAlphabet::spec_from_config(lower_seq(trim(x.spec_to_config()))) == Some(x),
        plain_text(x.spec_to_config()),
{
    reveal_with_fuel(plain_text, 20);
    reveal_strlit("ascii");
    reveal_strlit("baudot");
    lemma_plain_text(x.spec_to_config());
}

#[derive(Debug, Clone, Copy, PartialEq, Eq, Structural)]
pub enum RttyParity {
    Absent,
    Even,
    Odd,
    Mark,
    Space,
}

impl ConfigEnum for RttyParity {
    open spec fn spec_from_config(text: Seq<char>) -> Option<Self> {
        if text == "none"@ {
            Some(RttyParity::Absent)
        } else if text == "even"@ {
            Some(RttyParity::Even)
        } else if text == "odd"@ {
            Some(RttyParity::Odd)
        } else if text == "mark"@ {
            Some(RttyParity::Mark)
        } else if text == "space"@ {
            Some(RttyParity::Space)
        } else {
            None
        }
    }

    open spec fn spec_to_config(&self) -> Seq<char> {
        match self {
            RttyParity::Absent => "none"@,
            RttyParity::Even => "even"@,
            RttyParity::Odd => "odd"@,
            RttyParity::Mark => "mark"@,
            RttyParity::Space => "space"@,
        }
    }

    open spec fn spec_variants() -> Seq<Seq<char>> {
        seq!["none"@, "even"@, "odd"@, "mark"@, "space"@]
    }

    fn from_config(text: &str) -> (r: Option<Self>) {
        if str_eq(text, "none") {
            Some(RttyParity::Absent)
        } else if str_eq(text, "even") {
            Some(RttyParity::Even)
        } else if str_eq(text, "odd") {
            Some(RttyParity::Odd)
        } else if str_eq(text, "mark") {
            Some(RttyParity::Mark)
        } else if str_eq(text, "space") {
            Some(RttyParity::Space)
        } else {
            None
        }
    }

    fn to_config(&self) -> (r: &'static str) {
        match self {
            RttyParity::Absent => "none",
            RttyParity::Even => "even",
            RttyParity::Odd => "odd",
            RttyParity::Mark => "mark",
            RttyParity::Space => "space",
        }
    }

    fn variants() -> (r: Vec<&'static str>) {
        let r = vec!["none", "even", "odd", "mark", "space"];
        assert(r@.len() == Self::spec_variants().len());
        r
    }
}

impl Default for RttyParity {
    fn default() -> (r: Self)
        ensures
            r == RttyParity::Absent,
    {
        RttyParity::Absent
    }
}

/// The text a RttyParity value is written as reads back as the same value.
pub proof fn lemma_rtty_parity_text(x: RttyParity)
    ensures
        RttyParity::spec_from_config(lower_seq(trim(x.spec_to_config()))) == Some(x),
        plain_text(x.spec_to_config()),
{
    reveal_with_fuel(plain_text, 20);
    reveal_strlit("even");
    reveal_strlit("mark");
    reveal_strlit("none");
    reveal_strlit("odd");
    reveal_strlit("space");
    assert("even"@[0] != "mark"@[0]);
    assert("even"@[0] != "none"@[0]);
    assert("mark"@[0] != "none"@[0]);
    lemma_plain_text(x.spec_to_config());
}

#[derive(Debug, Clone, Copy, PartialEq, Eq, Structural)]
pub enum CallsignSource {
    LocalFile,
    Cty,
    Disabled,
}

impl ConfigEnum for CallsignSource {
    open spec fn spec_from_config(text: Seq<char>) -> Option<Self> {
        if text == "local_file"@ {
            Some(CallsignSource::LocalFile)
        } else if text == "cty"@ {
            Some(CallsignSource::Cty)
        } else if text == "none"@ {
            Some(CallsignSource::Disabled)
        } else {
            None
        }
    }

    open spec fn spec_to_config(&self) -> Seq<char> {
        match self {
            CallsignSource::LocalFile => "local_file"@,
            CallsignSource::Cty => "cty"@,
            CallsignSource::Disabled => "none"@,
        }
    }

    open spec fn spec_variants() -> Seq<Seq<char>> {
        seq!["local_file"@, "cty"@, "none"@]
    }

    fn from_config(text: &str) -> (r: Option<Self>) {
        if str_eq(text, "local_file") {
            Some(CallsignSource::LocalFile)
        } else if str_eq(text, "cty") {
            Some(CallsignSource::Cty)
        } else if str_eq(text, "none") {
            Some(CallsignSource::Disabled)
        } else {
            None
        }
    }

    fn to_config(&self) -> (r: &'static str) {
        match self {
            CallsignSource::LocalFile => "local_file",
            CallsignSource::Cty => "cty",
            CallsignSource::Disabled => "none",
        }
    }

    fn variants() -> (r: Vec<&'static str>) {
        let r = vec!["local_file", "cty", "none"];
        assert(r@.len() == Self::spec_variants().len());
        r
    }
}

impl Default for CallsignSource {
    fn default() -> (r: Self)
        ensures
            r == CallsignSource::Cty,
    {
        CallsignSource::Cty
    }
}

/// The text a CallsignSource value is written as reads back as the same value.
pub proof fn lemma_callsign_source_text(x: CallsignSource)
    ensures
        CallsignSource::spec_from_config(lower_seq(trim(x.spec_to_config()))) == Some(x),
        plain_text(x.spec_to_config()),
{
    reveal_with_fuel(plain_text, 20);
    reveal_strlit("cty");
    reveal_strlit("local_file");
    reveal_strlit("none");
    lemma_plain_text(x.spec_to_config());
}

#[derive(Debug, Clone, Copy, PartialEq, Eq, Structural)]
pub enum LogLevelCfg {
    Trace,
    Debug,
    Info,
    Warn,
    Error,
    Off,
}

impl ConfigEnum for LogLevelCfg {
    open spec fn spec_from_config(text: Seq<char>) -> Option<Self> {
        if text == "trace"@ {
            Some(LogLevelCfg::Trace)
        } else if text == "debug"@ {
            Some(LogLevelCfg::Debug)
        } else if text == "info"@ {
            Some(LogLevelCfg::Info)
        } else if text == "warn"@ {
            Some(LogLevelCfg::Warn)
        } else if text == "error"@ {
            Some(LogLevelCfg::Error)
        } else if text == "off"@ {
            Some(LogLevelCfg::Off)
        } else {
            None
        }
    }

    open spec fn spec_to_config(&self) -> Seq<char> {
        match self {
            LogLevelCfg::Trace => "trace"@,
            LogLevelCfg::Debug => "debug"@,
            LogLevelCfg::Info => "info"@,
            LogLevelCfg::Warn => "warn"@,
            LogLevelCfg::Error => "error"@,
            LogLevelCfg::Off => "off"@,
        }
    }

    open spec fn spec_variants() -> Seq<Seq<char>> {
        seq!["trace"@, "debug"@, "info"@, "warn"@, "error"@, "off"@]
    }

    fn from_config(text: &str) -> (r: Option<Self>) {
        if str_eq(text, "trace") {
            Some(LogLevelCfg::Trace)
        } else if str_eq(text, "debug") {
            Some(LogLevelCfg::Debug)
        } else if str_eq(text, "info") {
            Some(LogLevelCfg::Info)
        } else if str_eq(text, "warn") {
            Some(LogLevelCfg::Warn)
        } else if str_eq(text, "error") {
            Some(LogLevelCfg::Error)
        } else if str_eq(text, "off") {
            Some(LogLevelCfg::Off)
        } else {
            None
        }
    }

    fn to_config(&self) -> (r: &'static str) {
        match self {
            LogLevelCfg::Trace => "trace",
            LogLevelCfg::Debug => "debug",
            LogLevelCfg::Info => "info",
            LogLevelCfg::Warn => "warn",
            LogLevelCfg::Error => "error",
            LogLevelCfg::Off => "off",
        }
    }

    fn variants() -> (r: Vec<&'static str>) {
        let r = vec!["trace", "debug", "info", "warn", "error", "off"];
        assert(r@.len() == Self::spec_variants().len());
        r
    }
}

impl Default for LogLevelCfg {
    fn default() -> (r: Self)
        ensures
            r == LogLevelCfg::Info,
    {
        LogLevelCfg::Info
    }
}

/// The text a LogLevelCfg value is written as reads back as the same value.
pub proof fn lemma_log_level_cfg_text(x: LogLevelCfg)
    ensures
        LogLevelCfg::spec_from_config(lower_seq(trim(x.spec_to_config()))) == Some(x),
        plain_text(x.spec_to_config()),
{
    reveal_with_fuel(plain_text, 20);
    reveal_strlit("debug");
    reveal_strlit("error");
    reveal_strlit("info");
    reveal_strlit("off");
    reveal_strlit("trace");
    reveal_strlit("warn");
    assert("debug"@[0] != "error"@[0]);
    assert("debug"@[0] != "trace"@[0]);
    assert("error"@[0] != "trace"@[0]);
    assert("info"@[0] != "warn"@[0]);
    lemma_plain_text(x.spec_to_config());
}

#[derive(Debug, Clone, Copy, PartialEq, Eq, Structural)]
pub enum PresentModeCfg {
    Auto,
    Fifo,
    FifoRelaxed,
    Mailbox,
    Immediate,
}

impl ConfigEnum for PresentModeCfg {
    open spec fn spec_from_config(text: Seq<char>) -> Option<Self> {
        if text == "auto"@ {
            Some(PresentModeCfg::Auto)
        } else if text == "fifo"@ {
            Some(PresentModeCfg::Fifo)
        } else if text == "fifo_relaxed"@ {
            Some(PresentModeCfg::FifoRelaxed)
        } else if text == "mailbox"@ {
            Some(PresentModeCfg::Mailbox)
        } else if text == "immediate"@ {
            Some(PresentModeCfg::Immediate)
        } else {
            None
        }
    }

    open spec fn spec_to_config(&self) -> Seq<char> {
        match self {
            PresentModeCfg::Auto => "auto"@,
            PresentModeCfg::Fifo => "fifo"@,
            PresentModeCfg::FifoRelaxed => "fifo_relaxed"@,
            PresentModeCfg::Mailbox => "mailbox"@,
            PresentModeCfg::Immediate => "immediate"@,
        }
    }

    open spec fn spec_variants() -> Seq<Seq<char>> {
        seq!["auto"@, "fifo"@, "fifo_relaxed"@, "mailbox"@, "immediate"@]
    }

    fn from_config(text: &str) -> (r: Option<Self>) {
        if str_eq(text, "auto") {
            Some(PresentModeCfg::Auto)
        } else if str_eq(text, "fifo") {
            Some(PresentModeCfg::Fifo)
        } else if str_eq(text, "fifo_relaxed") {
            Some(PresentModeCfg::FifoRelaxed)
        } else if str_eq(text, "mailbox") {
            Some(PresentModeCfg::Mailbox)
        } else if str_eq(text, "immediate") {
            Some(PresentModeCfg::Immediate)
        } else {
            None
        }
    }

    fn to_config(&self) -> (r: &'static str) {
        match self {
            PresentModeCfg::Auto => "auto",
            PresentModeCfg::Fifo => "fifo",
            PresentModeCfg::FifoRelaxed => "fifo_relaxed",
            PresentModeCfg::Mailbox => "mailbox",
            PresentModeCfg::Immediate => "immediate",
        }
    }

    fn variants() -> (r: Vec<&'static str>) {
        let r = vec!["auto", "fifo", "fifo_relaxed", "mailbox", "immediate"];
        assert(r@.len() == Self::spec_variants().len());
        r
    }
}

impl Default for PresentModeCfg {
    fn default() -> (r: Self)
        ensures
            r == PresentModeCfg::Auto,
    {
        PresentModeCfg::Auto
    }
}

/// The text a PresentModeCfg value is written as reads back as the same value.
pub proof fn lemma_present_mode_cfg_text(x: PresentModeCfg)
    ensures
        PresentModeCfg::spec_from_config(lower_seq(trim(x.spec_to_config()))) == Some(x),
        plain_text(x.spec_to_config()),
{
    reveal_with_fuel(plain_text, 20);
    reveal_strlit("auto");
    reveal_strlit("fifo");
    reveal_strlit("fifo_relaxed");
    reveal_strlit("immediate");
    reveal_strlit("mailbox");
    assert("auto"@[0] != "fifo"@[0]);
    lemma_plain_text(x.spec_to_config());
}

#[derive(Debug, Clone, Copy, PartialEq, Eq, Structural)]
pub enum MonitorWidth {
    Detector,
    Independent,
}

impl ConfigEnum for MonitorWidth {
    open spec fn spec_from_config(text: Seq<char>) -> Option<Self> {
        if text == "detector"@ {
            Some(MonitorWidth::Detector)
        } else if text == "independent"@ {
            Some(MonitorWidth::Independent)
        } else {
            None
        }
    }

    open spec fn spec_to_config(&self) -> Seq<char> {
        match self {
            MonitorWidth::Detector => "detector"@,
            MonitorWidth::Independent => "independent"@,
        }
    }

    open spec fn spec_variants() -> Seq<Seq<char>> {
        seq!["detector"@, "independent"@]
    }

    fn from_config(text: &str) -> (r: Option<Self>) {
        if str_eq(text, "detector") {
            Some(MonitorWidth::Detector)
        } else if str_eq(text, "independent") {
            Some(MonitorWidth::Independent)
        } else {
            None
        }
    }

    fn to_config(&self) -> (r: &'static str) {
        match self {
            MonitorWidth::Detector => "detector",
            MonitorWidth::Independent => "independent",
        }
    }

    fn variants() -> (r: Vec<&'static str>) {
        let r = vec!["detector", "independent"];
        assert(r@.len() == Self::spec_variants().len());
        r
    }
}

impl Default for MonitorWidth {
    fn default() -> (r: Self)
        ensures
            r == MonitorWidth::Detector,
    {
        MonitorWidth::Detector
    }
}

/// The text a MonitorWidth value is written as reads back as the same value.
pub proof fn lemma_monitor_width_text(x: MonitorWidth)
    ensures
        MonitorWidth::spec_from_config(lower_seq(trim(x.spec_to_config()))) == Some(x),
        plain_text(x.spec_to_config()),
{
    reveal_with_fuel(plain_text, 20);
    reveal_strlit("detector");
    reveal_strlit("independent");
    lemma_plain_text(x.spec_to_config());
}

/// How the port is reached.
///
/// Directly means this application holds it, which is what a single application
/// wants and what costs nothing. Through the service means one exchange loop
/// serves several applications, which is the only way a logging program and this
/// one can address the same transceiver: a serial port carries one conversation
/// and two programs sending the same request produce two identical replies that
/// nothing can tell apart.
#[derive(Debug, Clone, Copy, PartialEq, Eq, Structural)]
pub enum RigTransport {
    Direct,
    Shared,
}

impl ConfigEnum for RigTransport {
    open spec fn spec_from_config(text: Seq<char>) -> Option<Self> {
        if text == "direct"@ {
            Some(RigTransport::Direct)
        } else if text == "shared"@ {
            Some(RigTransport::Shared)
        } else {
            None
        }
    }

    open spec fn spec_to_config(&self) -> Seq<char> {
        match self {
            RigTransport::Direct => "direct"@,
            RigTransport::Shared => "shared"@,
        }
    }

    open spec fn spec_variants() -> Seq<Seq<char>> {
        seq!["direct"@, "shared"@]
    }

    fn from_config(text: &str) -> (r: Option<Self>) {
        if str_eq(text, "direct") {
            Some(RigTransport::Direct)
        } else if str_eq(text, "shared") {
            Some(RigTransport::Shared)
        } else {
            None
        }
    }

    fn to_config(&self) -> (r: &'static str) {
        match self {
            RigTransport::Direct => "direct",
            RigTransport::Shared => "shared",
        }
    }

    fn variants() -> (r: Vec<&'static str>) {
        let r = vec!["direct", "shared"];
        assert(r@.len() == Self::spec_variants().len());
        r
    }
}

impl Default for RigTransport {
    fn default() -> (r: Self)
        ensures
            r == RigTransport::Direct,
    {
        RigTransport::Direct
    }
}

/// The text a RigTransport value is written as reads back as the same value.
pub proof fn lemma_rig_transport_text(x: RigTransport)
    ensures
        RigTransport::spec_from_config(lower_seq(trim(x.spec_to_config()))) == Some(x),
        plain_text(x.spec_to_config()),
{
    reveal_with_fuel(plain_text, 20);
    reveal_strlit("direct");
    reveal_strlit("shared");
    assert("direct"@[0] != "shared"@[0]);
    lemma_plain_text(x.spec_to_config());
}

/// State a modem control line is held in.
///
/// Low by default and the reason is safety rather than convention: on many
/// interface cables one of these keys the transmitter, so a port opened with
/// them asserted would transmit before the operator had decided anything.
#[derive(Debug, Clone, Copy, PartialEq, Eq, Structural)]
pub enum RigLine {
    Low,
    High,
}

impl ConfigEnum for RigLine {
    open spec fn spec_from_config(text: Seq<char>) -> Option<Self> {
        if text == "low"@ {
            Some(RigLine::Low)
        } else if text == "high"@ {
            Some(RigLine::High)
        } else {
            None
        }
    }

    open spec fn spec_to_config(&self) -> Seq<char> {
        match self {
            RigLine::Low => "low"@,
            RigLine::High => "high"@,
        }
    }

    open spec fn spec_variants() -> Seq<Seq<char>> {
        seq!["low"@, "high"@]
    }

    fn from_config(text: &str) -> (r: Option<Self>) {
        if str_eq(text, "low") {
            Some(RigLine::Low)
        } else if str_eq(text, "high") {
            Some(RigLine::High)
        } else {
            None
        }
    }

    fn to_config(&self) -> (r: &'static str) {
        match self {
            RigLine::Low => "low",
            RigLine::High => "high",
        }
    }

    fn variants() -> (r: Vec<&'static str>) {
        let r = vec!["low", "high"];
        assert(r@.len() == Self::spec_variants().len());
        r
    }
}

impl Default for RigLine {
    fn default() -> (r: Self)
        ensures
            r == RigLine::Low,
    {
        RigLine::Low
    }
}

/// The text a RigLine value is written as reads back as the same value.
pub proof fn lemma_rig_line_text(x: RigLine)
    ensures
        RigLine::spec_from_config(lower_seq(trim(x.spec_to_config()))) == Some(x),
        plain_text(x.spec_to_config()),
{
    reveal_with_fuel(plain_text, 20);
    reveal_strlit("high");
    reveal_strlit("low");
    lemma_plain_text(x.spec_to_config());
}

/// Which side of the dial the audio spectrum sits on.
///
/// Derived from the mode the transceiver reports whenever it reports one. The
/// two explicit settings exist for a receiver whose description cannot read the
/// mode, and for a converter that inverts the spectrum.
#[derive(Debug, Clone, Copy, PartialEq, Eq, Structural)]
pub enum SidebandMode {
    Auto,
    Upper,
    Lower,
}

impl ConfigEnum for SidebandMode {
    open spec fn spec_from_config(text: Seq<char>) -> Option<Self> {
        if text == "auto"@ {
            Some(SidebandMode::Auto)
        } else if text == "upper"@ {
            Some(SidebandMode::Upper)
        } else if text == "lower"@ {
            Some(SidebandMode::Lower)
        } else {
            None
        }
    }

    open spec fn spec_to_config(&self) -> Seq<char> {
        match self {
            SidebandMode::Auto => "auto"@,
            SidebandMode::Upper => "upper"@,
            SidebandMode::Lower => "lower"@,
        }
    }

    open spec fn spec_variants() -> Seq<Seq<char>> {
        seq!["auto"@, "upper"@, "lower"@]
    }

    fn from_config(text: &str) -> (r: Option<Self>) {
        if str_eq(text, "auto") {
            Some(SidebandMode::Auto)
        } else if str_eq(text, "upper") {
            Some(SidebandMode::Upper)
        } else if str_eq(text, "lower") {
            Some(SidebandMode::Lower)
        } else {
            None
        }
    }

    fn to_config(&self) -> (r: &'static str) {
        match self {
            SidebandMode::Auto => "auto",
            SidebandMode::Upper => "upper",
            SidebandMode::Lower => "lower",
        }
    }

    fn variants() -> (r: Vec<&'static str>) {
        let r = vec!["auto", "upper", "lower"];
        assert(r@.len() == Self::spec_variants().len());
        r
    }
}

impl Default for SidebandMode {
    fn default() -> (r: Self)
        ensures
            r == SidebandMode::Auto,
    {
        SidebandMode::Auto
    }
}

/// The text a SidebandMode value is written as reads back as the same value.
pub proof fn lemma_sideband_mode_text(x: SidebandMode)
    ensures
        SidebandMode::spec_from_config(lower_seq(trim(x.spec_to_config()))) == Some(x),
        plain_text(x.spec_to_config()),
{
    reveal_with_fuel(plain_text, 20);
    reveal_strlit("auto");
    reveal_strlit("lower");
    reveal_strlit("upper");
    assert("lower"@[0] != "upper"@[0]);
    lemma_plain_text(x.spec_to_config());
}

/// What the application is being used as.
///
/// The two are not variations of one arrangement, they are different
/// instruments. Recognising keying wants a detector per carrier, a threshold
/// derived from the envelope statistics and no gain loop anywhere near the
/// signal. Listening to one signal wants a filter, a demodulator, noise
/// reduction and a gain loop. Several of the second set actively destroy the
/// first, which is why the mode exists at all rather than a row of independent
/// switches.
#[derive(Debug, Clone, Copy, PartialEq, Eq, Structural)]
pub enum OperatingMode {
    Skimmer,
    Sdr,
}

impl ConfigEnum for OperatingMode {
    open spec fn spec_from_config(text: Seq<char>) -> Option<Self> {
        if text == "skimmer"@ {
            Some(OperatingMode::Skimmer)
        } else if text == "sdr"@ {
            Some(OperatingMode::Sdr)
        } else {
            None
        }
    }

    open spec fn spec_to_config(&self) -> Seq<char> {
        match self {
            OperatingMode::Skimmer => "skimmer"@,
            OperatingMode::Sdr => "sdr"@,
        }
    }

    open spec fn spec_variants() -> Seq<Seq<char>> {
        seq!["skimmer"@, "sdr"@]
    }

    fn from_config(text: &str) -> (r: Option<Self>) {
        if str_eq(text, "skimmer") {
            Some(OperatingMode::Skimmer)
        } else if str_eq(text, "sdr") {
            Some(OperatingMode::Sdr)
        } else {
            None
        }
    }

    fn to_config(&self) -> (r: &'static str) {
        match self {
            OperatingMode::Skimmer => "skimmer",
            OperatingMode::Sdr => "sdr",
        }
    }

    fn variants() -> (r: Vec<&'static str>) {
        let r = vec!["skimmer", "sdr"];
        assert(r@.len() == Self::spec_variants().len());
        r
    }
}

impl Default for OperatingMode {
    fn default() -> (r: Self)
        ensures
            r == OperatingMode::Skimmer,
    {
        OperatingMode::Skimmer
    }
}

/// The text a OperatingMode value is written as reads back as the same value.
pub proof fn lemma_operating_mode_text(x: OperatingMode)
    ensures
        OperatingMode::spec_from_config(lower_seq(trim(x.spec_to_config()))) == Some(x),
        plain_text(x.spec_to_config()),
{
    reveal_with_fuel(plain_text, 20);
    reveal_strlit("sdr");
    reveal_strlit("skimmer");
    lemma_plain_text(x.spec_to_config());
}

/// Demodulator used in the receiver mode.
///
/// Independent of what the transceiver is set to. The two are coupled by the
/// setting below when the operator asks for it, and are otherwise separate:
/// a receiver fed I/Q demodulates for itself, and a receiver fed audio still
/// needs a mode to derive its filter and its decoder gating from.
#[derive(Debug, Clone, Copy, PartialEq, Eq, Structural)]
pub enum Detector {
    Cw,
    Usb,
    Lsb,
    DigU,
    DigL,
    Am,
    Sam,
    Fm,
}

impl ConfigEnum for Detector {
    open spec fn spec_from_config(text: Seq<char>) -> Option<Self> {
        if text == "cw"@ {
            Some(Detector::Cw)
        } else if text == "usb"@ {
            Some(Detector::Usb)
        } else if text == "lsb"@ {
            Some(Detector::Lsb)
        } else if text == "dig_u"@ {
            Some(Detector::DigU)
        } else if text == "dig_l"@ {
            Some(Detector::DigL)
        } else if text == "am"@ {
            Some(Detector::Am)
        } else if text == "sam"@ {
            Some(Detector::Sam)
        } else if text == "fm"@ {
            Some(Detector::Fm)
        } else {
            None
        }
    }

    open spec fn spec_to_config(&self) -> Seq<char> {
        match self {
            Detector::Cw => "cw"@,
            Detector::Usb => "usb"@,
            Detector::Lsb => "lsb"@,
            Detector::DigU => "dig_u"@,
            Detector::DigL => "dig_l"@,
            Detector::Am => "am"@,
            Detector::Sam => "sam"@,
            Detector::Fm => "fm"@,
        }
    }

    open spec fn spec_variants() -> Seq<Seq<char>> {
        seq!["cw"@, "usb"@, "lsb"@, "dig_u"@, "dig_l"@, "am"@, "sam"@, "fm"@]
    }

    fn from_config(text: &str) -> (r: Option<Self>) {
        if str_eq(text, "cw") {
            Some(Detector::Cw)
        } else if str_eq(text, "usb") {
            Some(Detector::Usb)
        } else if str_eq(text, "lsb") {
            Some(Detector::Lsb)
        } else if str_eq(text, "dig_u") {
            Some(Detector::DigU)
        } else if str_eq(text, "dig_l") {
            Some(Detector::DigL)
        } else if str_eq(text, "am") {
            Some(Detector::Am)
        } else if str_eq(text, "sam") {
            Some(Detector::Sam)
        } else if str_eq(text, "fm") {
            Some(Detector::Fm)
        } else {
            None
        }
    }

    fn to_config(&self) -> (r: &'static str) {
        match self {
            Detector::Cw => "cw",
            Detector::Usb => "usb",
            Detector::Lsb => "lsb",
            Detector::DigU => "dig_u",
            Detector::DigL => "dig_l",
            Detector::Am => "am",
            Detector::Sam => "sam",
            Detector::Fm => "fm",
        }
    }

    fn variants() -> (r: Vec<&'static str>) {
        let r = vec!["cw", "usb", "lsb", "dig_u", "dig_l", "am", "sam", "fm"];
        assert(r@.len() == Self::spec_variants().len());
        r
    }
}

impl Default for Detector {
    fn default() -> (r: Self)
        ensures
            r == Detector::Usb,
    {
        Detector::Usb
    }
}

/// The text a Detector value is written as reads back as the same value.
#[verifier::rlimit(50)]
pub proof fn lemma_detector_text(x: Detector)
    ensures
        Detector::spec_from_config(lower_seq(trim(x.spec_to_config()))) == Some(x),
        plain_text(x.spec_to_config()),
{
    reveal_with_fuel(plain_text, 20);
    reveal_strlit("am");
    reveal_strlit("cw");
    reveal_strlit("dig_l");
    reveal_strlit("dig_u");
    reveal_strlit("fm");
    reveal_strlit("lsb");
    reveal_strlit("sam");
    reveal_strlit("usb");
    assert("am"@[0] != "cw"@[0]);
    assert("am"@[0] != "fm"@[0]);
    assert("cw"@[0] != "fm"@[0]);
    assert("dig_l"@[4] != "dig_u"@[4]);
    assert("lsb"@[0] != "sam"@[0]);
    assert("lsb"@[0] != "usb"@[0]);
    assert("sam"@[0] != "usb"@[0]);
    lemma_plain_text(x.spec_to_config());
}

/// Which noise reduction runs.
///
/// The two methods do different things and neither is better in general.
///
/// A predictor separates the predictable part of a signal from the
/// unpredictable part and keeps the first. A steady tone is predictable and
/// noise is not, so on keying and on data it works and costs nothing in
/// latency. Speech is not predictable over the horizon a short filter sees, so
/// on voice it removes the speech along with the noise.
///
/// Spectral subtraction estimates the noise floor per frequency and removes it,
/// which is what voice needs. It costs one block of latency and produces
/// musical noise when pushed, which is the characteristic failure of the method
/// and the reason many operators switch it off.
///
/// Automatic chooses from the detector, because the detector already states
/// which kind of signal is being received. That is a decision the operator has
/// made once and should not have to make twice.
#[derive(Debug, Clone, Copy, PartialEq, Eq, Structural)]
pub enum NrMethod {
    Auto,
    Predictor,
    Spectral,
}

impl ConfigEnum for NrMethod {
    open spec fn spec_from_config(text: Seq<char>) -> Option<Self> {
        if text == "auto"@ {
            Some(NrMethod::Auto)
        } else if text == "predictor"@ {
            Some(NrMethod::Predictor)
        } else if text == "spectral"@ {
            Some(NrMethod::Spectral)
        } else {
            None
        }
    }

    open spec fn spec_to_config(&self) -> Seq<char> {
        match self {
            NrMethod::Auto => "auto"@,
            NrMethod::Predictor => "predictor"@,
            NrMethod::Spectral => "spectral"@,
        }
    }

    open spec fn spec_variants() -> Seq<Seq<char>> {
        seq!["auto"@, "predictor"@, "spectral"@]
    }

    fn from_config(text: &str) -> (r: Option<Self>) {
        if str_eq(text, "auto") {
            Some(NrMethod::Auto)
        } else if str_eq(text, "predictor") {
            Some(NrMethod::Predictor)
        } else if str_eq(text, "spectral") {
            Some(NrMethod::Spectral)
        } else {
            None
        }
    }

    fn to_config(&self) -> (r: &'static str) {
        match self {
            NrMethod::Auto => "auto",
            NrMethod::Predictor => "predictor",
            NrMethod::Spectral => "spectral",
        }
    }

    fn variants() -> (r: Vec<&'static str>) {
        let r = vec!["auto", "predictor", "spectral"];
        assert(r@.len() == Self::spec_variants().len());
        r
    }
}

impl Default for NrMethod {
    fn default() -> (r: Self)
        ensures
            r == NrMethod::Auto,
    {
        NrMethod::Auto
    }
}

/// The text a NrMethod value is written as reads back as the same value.
pub proof fn lemma_nr_method_text(x: NrMethod)
    ensures
        NrMethod::spec_from_config(lower_seq(trim(x.spec_to_config()))) == Some(x),
        plain_text(x.spec_to_config()),
{
    reveal_with_fuel(plain_text, 20);
    reveal_strlit("auto");
    reveal_strlit("predictor");
    reveal_strlit("spectral");
    lemma_plain_text(x.spec_to_config());
}

#[derive(Debug, Clone, Copy, PartialEq, Eq, Structural)]
pub enum ModeLink {
    Independent,
    Follow,
    Drive,
    Both,
}

impl ConfigEnum for ModeLink {
    open spec fn spec_from_config(text: Seq<char>) -> Option<Self> {
        if text == "independent"@ {
            Some(ModeLink::Independent)
        } else if text == "follow"@ {
            Some(ModeLink::Follow)
        } else if text == "drive"@ {
            Some(ModeLink::Drive)
        } else if text == "both"@ {
            Some(ModeLink::Both)
        } else {
            None
        }
    }

    open spec fn spec_to_config(&self) -> Seq<char> {
        match self {
            ModeLink::Independent => "independent"@,
            ModeLink::Follow => "follow"@,
            ModeLink::Drive => "drive"@,
            ModeLink::Both => "both"@,
        }
    }

    open spec fn spec_variants() -> Seq<Seq<char>> {
        seq!["independent"@, "follow"@, "drive"@, "both"@]
    }

    fn from_config(text: &str) -> (r: Option<Self>) {
        if str_eq(text, "independent") {
            Some(ModeLink::Independent)
        } else if str_eq(text, "follow") {
            Some(ModeLink::Follow)
        } else if str_eq(text, "drive") {
            Some(ModeLink::Drive)
        } else if str_eq(text, "both") {
            Some(ModeLink::Both)
        } else {
            None
        }
    }

    fn to_config(&self) -> (r: &'static str) {
        match self {
            ModeLink::Independent => "independent",
            ModeLink::Follow => "follow",
            ModeLink::Drive => "drive",
            ModeLink::Both => "both",
        }
    }

    fn variants() -> (r: Vec<&'static str>) {
        let r = vec!["independent", "follow", "drive", "both"];
        assert(r@.len() == Self::spec_variants().len());
        r
    }
}

impl Default for ModeLink {
    fn default() -> (r: Self)
        ensures
            r == ModeLink::Follow,
    {
        ModeLink::Follow
    }
}

/// The text a ModeLink value is written as reads back as the same value.
pub proof fn lemma_mode_link_text(x: ModeLink)
    ensures
        ModeLink::spec_from_config(lower_seq(trim(x.spec_to_config()))) == Some(x),
        plain_text(x.spec_to_config()),
{
    reveal_with_fuel(plain_text, 20);
    reveal_strlit("both");
    reveal_strlit("drive");
    reveal_strlit("follow");
    reveal_strlit("independent");
    lemma_plain_text(x.spec_to_config());
}

/// Sample layout inside a ring segment.
///
/// Integer by default. A sound card input carries sixty to seventy decibels of
/// usable range and sixteen bits hold ninety six, so nothing measurable is
/// lost, and the file is half the size of the float one. Float exists for a
/// receiver that genuinely delivers more, and for a session where the recording
/// is the measurement rather than a note of it.
#[derive(Debug, Clone, Copy, PartialEq, Eq, Structural)]
pub enum RecordFormat {
    I16,
    F32,
}

impl ConfigEnum for RecordFormat {
    open spec fn spec_from_config(text: Seq<char>) -> Option<Self> {
        if text == "i16"@ {
            Some(RecordFormat::I16)
        } else if text == "f32"@ {
            Some(RecordFormat::F32)
        } else {
            None
        }
    }

    open spec fn spec_to_config(&self) -> Seq<char> {
        match self {
            RecordFormat::I16 => "i16"@,
            RecordFormat::F32 => "f32"@,
        }
    }

    open spec fn spec_variants() -> Seq<Seq<char>> {
        seq!["i16"@, "f32"@]
    }

    fn from_config(text: &str) -> (r: Option<Self>) {
        if str_eq(text, "i16") {
            Some(RecordFormat::I16)
        } else if str_eq(text, "f32") {
            Some(RecordFormat::F32)
        } else {
            None
        }
    }

    fn to_config(&self) -> (r: &'static str) {
        match self {
            RecordFormat::I16 => "i16",
            RecordFormat::F32 => "f32",
        }
    }

    fn variants() -> (r: Vec<&'static str>) {
        let r = vec!["i16", "f32"];
        assert(r@.len() == Self::spec_variants().len());
        r
    }
}

impl Default for RecordFormat {
    fn default() -> (r: Self)
        ensures
            r == RecordFormat::I16,
    {
        RecordFormat::I16
    }
}

/// The text a RecordFormat value is written as reads back as the same value.
pub proof fn lemma_record_format_text(x: RecordFormat)
    ensures
        RecordFormat::spec_from_config(lower_seq(trim(x.spec_to_config()))) == Some(x),
        plain_text(x.spec_to_config()),
{
    reveal_with_fuel(plain_text, 20);
    reveal_strlit("f32");
    reveal_strlit("i16");
    assert("f32"@[0] != "i16"@[0]);
    lemma_plain_text(x.spec_to_config());
}

/// Container an export is written into.
///
/// Three, because they answer three different questions and none of them
/// answers two.
///
/// Uncompressed opens everywhere and is what a second tool expects. Lossless
/// halves the size and keeps every sample, which is what archiving a signal
/// worth re-decoding needs. Lossy is a quarter of the size and destroys the
/// weak signals first, which makes it right for sending a recording to somebody
/// and wrong for keeping one.
#[derive(Debug, Clone, Copy, PartialEq, Eq, Structural)]
pub enum ExportFormat {
    Wav,
    Lossless,
    Qoa,
}

impl ConfigEnum for ExportFormat {
    open spec fn spec_from_config(text: Seq<char>) -> Option<Self> {
        if text == "wav"@ {
            Some(ExportFormat::Wav)
        } else if text == "lossless"@ {
            Some(ExportFormat::Lossless)
        } else if text == "qoa"@ {
            Some(ExportFormat::Qoa)
        } else {
            None
        }
    }

    open spec fn spec_to_config(&self) -> Seq<char> {
        match self {
            ExportFormat::Wav => "wav"@,
            ExportFormat::Lossless => "lossless"@,
            ExportFormat::Qoa => "qoa"@,
        }
    }

    open spec fn spec_variants() -> Seq<Seq<char>> {
        seq!["wav"@, "lossless"@, "qoa"@]
    }

    fn from_config(text: &str) -> (r: Option<Self>) {
        if str_eq(text, "wav") {
            Some(ExportFormat::Wav)
        } else if str_eq(text, "lossless") {
            Some(ExportFormat::Lossless)
        } else if str_eq(text, "qoa") {
            Some(ExportFormat::Qoa)
        } else {
            None
        }
    }

    fn to_config(&self) -> (r: &'static str) {
        match self {
            ExportFormat::Wav => "wav",
            ExportFormat::Lossless => "lossless",
            ExportFormat::Qoa => "qoa",
        }
    }

    fn variants() -> (r: Vec<&'static str>) {
        let r = vec!["wav", "lossless", "qoa"];
        assert(r@.len() == Self::spec_variants().len());
        r
    }
}

impl Default for ExportFormat {
    fn default() -> (r: Self)
        ensures
            r == ExportFormat::Wav,
    {
        ExportFormat::Wav
    }
}

/// The text a ExportFormat value is written as reads back as the same value.
pub proof fn lemma_export_format_text(x: ExportFormat)
    ensures
        ExportFormat::spec_from_config(lower_seq(trim(x.spec_to_config()))) == Some(x),
        plain_text(x.spec_to_config()),
{
    reveal_with_fuel(plain_text, 20);
    reveal_strlit("lossless");
    reveal_strlit("qoa");
    reveal_strlit("wav");
    assert("qoa"@[0] != "wav"@[0]);
    lemma_plain_text(x.spec_to_config());
}


impl LogLevelCfg {
    /// The logger level a configured level names.
    pub open spec fn spec_to_level(self) -> Level {
        match self {
            LogLevelCfg::Trace => Level::Trace,
            LogLevelCfg::Debug => Level::Debug,
            LogLevelCfg::Info => Level::Info,
            LogLevelCfg::Warn => Level::Warn,
            LogLevelCfg::Error => Level::Error,
            LogLevelCfg::Off => Level::Off,
        }
    }

    /// The configured level that names a logger level.
    pub open spec fn spec_from_level(l: Level) -> LogLevelCfg {
        match l {
            Level::Trace => LogLevelCfg::Trace,
            Level::Debug => LogLevelCfg::Debug,
            Level::Info => LogLevelCfg::Info,
            Level::Warn => LogLevelCfg::Warn,
            Level::Error => LogLevelCfg::Error,
            Level::Off => LogLevelCfg::Off,
        }
    }

    pub fn to_level(self) -> (r: Level)
        ensures
            r == self.spec_to_level(),
    {
        match self {
            LogLevelCfg::Trace => Level::Trace,
            LogLevelCfg::Debug => Level::Debug,
            LogLevelCfg::Info => Level::Info,
            LogLevelCfg::Warn => Level::Warn,
            LogLevelCfg::Error => Level::Error,
            LogLevelCfg::Off => Level::Off,
        }
    }

    pub fn from_level(l: Level) -> (r: Self)
        ensures
            r == Self::spec_from_level(l),
    {
        match l {
            Level::Trace => LogLevelCfg::Trace,
            Level::Debug => LogLevelCfg::Debug,
            Level::Info => LogLevelCfg::Info,
            Level::Warn => LogLevelCfg::Warn,
            Level::Error => LogLevelCfg::Error,
            Level::Off => LogLevelCfg::Off,
        }
    }
}

/// The two level types name the same six levels: converting one way and back
/// gives the value started from.
pub proof fn lemma_level_conversions(l: Level, c: LogLevelCfg)
    ensures
        LogLevelCfg::spec_from_level(l).spec_to_level() == l,
        LogLevelCfg::spec_from_level(c.spec_to_level()) == c,
{
}


impl Detector {
    /// True when the mode selects one half of a two sided spectrum.
    ///
    /// Only such a mode is affected by which half a complex input carries, and
    /// only such a mode collapses onto its opposite on a real input.
    pub fn is_sideband(self) -> (r: bool)
        ensures
            r == (self is Cw || self is Usb || self is Lsb || self is DigU || self is DigL),
    {
        match self {
            Detector::Cw | Detector::Usb | Detector::Lsb | Detector::DigU | Detector::DigL => true,
            _ => false,
        }
    }

    /// True when the mode places its passband below nought on a complex input.
    pub fn is_lower_sideband(self) -> (r: bool)
        ensures
            r == (self is Lsb || self is DigL),
    {
        match self {
            Detector::Lsb | Detector::DigL => true,
            _ => false,
        }
    }

    /// True when the mode is keyed and therefore needs a beat oscillator on a
    /// complex input.
    pub fn is_keyed(self) -> (r: bool)
        ensures
            r == (self is Cw),
    {
        match self {
            Detector::Cw => true,
            _ => false,
        }
    }

    /// True when the mode needs a carrier the receiver has not already removed.
    ///
    /// Amplitude and frequency detection operate on a modulated carrier. Audio
    /// from a transceiver has none: the transceiver detected it already, and
    /// detecting the result a second time produces noise rather than a signal.
    pub fn needs_carrier(self) -> (r: bool)
        ensures
            r == (self is Am || self is Sam || self is Fm),
    {
        match self {
            Detector::Am | Detector::Sam | Detector::Fm => true,
            _ => false,
        }
    }
}

/// Every panel section, in declaration order.
pub open spec fn all_sections() -> Seq<PanelSection> {
    seq![PanelSection::Rig, PanelSection::Receiver, PanelSection::Meter, PanelSection::Audio, PanelSection::Monitor, PanelSection::Spectrum, PanelSection::Waterfall, PanelSection::CwChannels, PanelSection::CwDecoder, PanelSection::RttyDecoder, PanelSection::PskDecoder, PanelSection::Classifier, PanelSection::Callsign, PanelSection::Spots]
}

impl PanelSection {
    pub open spec fn spec_key(self) -> Seq<char> {
        match self {
            PanelSection::Rig => "group.rig"@,
            PanelSection::Receiver => "group.receiver"@,
            PanelSection::Meter => "group.meter"@,
            PanelSection::Audio => "group.audio"@,
            PanelSection::Monitor => "group.monitor"@,
            PanelSection::Spectrum => "group.spectrum"@,
            PanelSection::Waterfall => "group.waterfall"@,
            PanelSection::CwChannels => "group.cw_channels"@,
            PanelSection::CwDecoder => "group.cw_decoder"@,
            PanelSection::RttyDecoder => "group.rtty_decoder"@,
            PanelSection::PskDecoder => "group.psk_decoder"@,
            PanelSection::Classifier => "group.classifier"@,
            PanelSection::Callsign => "group.callsign"@,
            PanelSection::Spots => "group.spots"@,
        }
    }

    /// Localization key of the group title.
    pub fn key(self) -> (r: &'static str)
        ensures
            r@ == self.spec_key(),
    {
        match self {
            PanelSection::Rig => "group.rig",
            PanelSection::Receiver => "group.receiver",
            PanelSection::Meter => "group.meter",
            PanelSection::Audio => "group.audio",
            PanelSection::Monitor => "group.monitor",
            PanelSection::Spectrum => "group.spectrum",
            PanelSection::Waterfall => "group.waterfall",
            PanelSection::CwChannels => "group.cw_channels",
            PanelSection::CwDecoder => "group.cw_decoder",
            PanelSection::RttyDecoder => "group.rtty_decoder",
            PanelSection::PskDecoder => "group.psk_decoder",
            PanelSection::Classifier => "group.classifier",
            PanelSection::Callsign => "group.callsign",
            PanelSection::Spots => "group.spots",
        }
    }

    /// Every section the build knows, in declaration order.
    pub fn all() -> (r: Vec<PanelSection>)
        ensures
            r@ == all_sections(),
    {
        let r = vec![
            PanelSection::Rig,
            PanelSection::Receiver,
            PanelSection::Meter,
            PanelSection::Audio,
            PanelSection::Monitor,
            PanelSection::Spectrum,
            PanelSection::Waterfall,
            PanelSection::CwChannels,
            PanelSection::CwDecoder,
            PanelSection::RttyDecoder,
            PanelSection::PskDecoder,
            PanelSection::Classifier,
            PanelSection::Callsign,
            PanelSection::Spots,
        ];
        assert(r@ =~= all_sections());
        r
    }
}

} // verus!
