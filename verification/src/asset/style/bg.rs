//! The `background` property family: its typed values and the value
//! grammars that read them from a token run.

use vstd::prelude::*;

use super::Error;
use crate::lex::{dot_idx, lemma_dot_idx_bounds, toks_model, Token, TokenModel};
use crate::num::{all_digits, dec_val, dec_val_sat, int_str, scalar_str, whole_scalar, Scalar, ScalarModel};
use crate::text::{chars_vec, push_str, string_from_chars, string_of};
use crate::text::str_eq;

verus! {

/// A direction keyword of a linear gradient.
#[derive(Debug, Copy, Clone, PartialEq, Eq, Structural)]
pub enum Direction {
    Left,
    Right,
    Bottom,
    Top,
}

/// The size keywords of a radial gradient.
#[derive(Debug, Copy, Clone, PartialEq, Eq, Structural)]
pub enum RadialGradientSize {
    FarthestCorner,
    ClosestSide,
    ClosestCorner,
    FarthestSide,
}

/// The kind of a position value: a keyword, or the unit of a number.
#[derive(Debug, Copy, Clone, PartialEq, Eq, Structural)]
pub enum PositionValueType {
    Left,
    Right,
    Center,
    Top,
    Bottom,
    Pixels,
    Percentage,
    Em,
    Inch,
    Point,
    Centimetre,
    Millimetre,
    Pica,
    Ex,
}

/// A position: its kind and, for unit kinds, its amount. Keyword kinds
/// carry a zero amount.
#[derive(Debug, Clone, PartialEq)]
pub struct PositionValue {
    pub kind: PositionValueType,
    pub amount: Scalar,
}

/// The mathematical shape of a [`PositionValue`].
pub open spec fn pos_model(p: PositionValue) -> (PositionValueType, ScalarModel) {
    (p.kind, p.amount@)
}

/// A hue, in degrees. Values above 360 are syntactically representable
/// but invalid (see [`Hue::valid`]).
#[derive(Debug, Copy, Clone, PartialEq, Eq, Structural)]
pub struct Hue {
    pub val: u16,
}

impl Hue {
    /// Whether the hue lies on the color circle.
    pub fn valid(&self) -> (r: bool)
        ensures
            r == (self.val <= 360),
    {
        self.val <= 360
    }
}

/// A saturation percentage. Values above 100 are syntactically
/// representable but invalid (see [`Saturation::valid`]).
#[derive(Debug, Clone, PartialEq)]
pub struct Saturation {
    pub val: Scalar,
}

impl Saturation {
    /// Whether the saturation is at most one hundred percent.
    pub fn valid(&self) -> (r: bool)
        ensures
            r == self.val.spec_at_most(100),
    {
        self.val.at_most(100)
    }
}

/// A lightness percentage. Values above 100 are syntactically
/// representable but invalid (see [`Lightness::valid`]).
#[derive(Debug, Clone, PartialEq)]
pub struct Lightness {
    pub val: Scalar,
}

impl Lightness {
    /// Whether the lightness is at most one hundred percent.
    pub fn valid(&self) -> (r: bool)
        ensures
            r == self.val.spec_at_most(100),
    {
        self.val.at_most(100)
    }
}

/// One hex pair of a hex color.
#[derive(Debug, Copy, Clone, PartialEq, Eq, Structural)]
pub struct ColorHex {
    pub raw: u8,
}

/// An alpha channel value.
#[derive(Debug, Clone, PartialEq)]
pub enum Alpha {
    Percentage(Scalar),
}

/// A color: a function form, a name, or `transparent`.
#[derive(Debug, Clone, PartialEq)]
pub enum Color {
    RGB(Scalar, Scalar, Scalar),
    RGBA(Scalar, Scalar, Scalar, Scalar),
    HSL(Hue, Saturation, Lightness),
    HSLA(Hue, Saturation, Lightness, Scalar),
    Name(String),
    Transparent,
}

/// The mathematical shape of a [`Color`].
pub enum ColorModel {
    RGB(ScalarModel, ScalarModel, ScalarModel),
    RGBA(ScalarModel, ScalarModel, ScalarModel, ScalarModel),
    HSL(int, ScalarModel, ScalarModel),
    HSLA(int, ScalarModel, ScalarModel, ScalarModel),
    Name(Seq<char>),
    Transparent,
}

impl View for Color {
    type V = ColorModel;

    open spec fn view(&self) -> ColorModel {
        match self {
            Color::RGB(r, g, b) => ColorModel::RGB(r@, g@, b@),
            Color::RGBA(r, g, b, a) => ColorModel::RGBA(r@, g@, b@, a@),
            Color::HSL(h, s, l) => ColorModel::HSL(h.val as int, s.val@, l.val@),
            Color::HSLA(h, s, l, a) => ColorModel::HSLA(h.val as int, s.val@, l.val@, a@),
            Color::Name(n) => ColorModel::Name(n@),
            Color::Transparent => ColorModel::Transparent,
        }
    }
}

/// One color stop of a conic gradient, with an optional angle and an
/// optional position.
#[derive(Debug, Clone, PartialEq)]
pub struct ConicGradientValue {
    pub from_angle: Option<Scalar>,
    pub at_position: Option<PositionValue>,
    pub color: Color,
}

/// The mathematical shape of a [`ConicGradientValue`].
pub struct ConicValueModel {
    pub from_angle: Option<ScalarModel>,
    pub at_position: Option<(PositionValueType, ScalarModel)>,
    pub color: ColorModel,
}

impl View for ConicGradientValue {
    type V = ConicValueModel;

    open spec fn view(&self) -> ConicValueModel {
        ConicValueModel {
            from_angle: match self.from_angle {
                Some(a) => Some(a@),
                None => None,
            },
            at_position: match self.at_position {
                Some(p) => Some(pos_model(p)),
                None => None,
            },
            color: self.color@,
        }
    }
}

/// A conic gradient: its stops, in paint order, and its repeat flag.
#[derive(Debug, Clone, PartialEq)]
pub struct ConicGradient {
    pub repeats: bool,
    pub values: Vec<ConicGradientValue>,
}

/// The mathematical shape of a [`ConicGradient`].
pub struct ConicModel {
    pub repeats: bool,
    pub values: Seq<ConicValueModel>,
}

impl View for ConicGradient {
    type V = ConicModel;

    open spec fn view(&self) -> ConicModel {
        ConicModel {
            repeats: self.repeats,
            values: self.values@.map_values(|v: ConicGradientValue| v@),
        }
    }
}

/// One or two direction keywords.
#[derive(Debug, Copy, Clone, PartialEq, Eq)]
pub struct DirectionPair {
    pub first: Direction,
    pub second: Option<Direction>,
}

/// A linear gradient: one or two direction keywords, then its colors in
/// paint order.
#[derive(Debug, Clone, PartialEq)]
pub struct LinearGradient {
    pub directions: DirectionPair,
    pub colors: Vec<Color>,
}

/// The mathematical shape of a [`LinearGradient`].
pub struct LinearModel {
    pub directions: DirectionPair,
    pub colors: Seq<ColorModel>,
}

impl View for LinearGradient {
    type V = LinearModel;

    open spec fn view(&self) -> LinearModel {
        LinearModel {
            directions: self.directions,
            colors: self.colors@.map_values(|c: Color| c@),
        }
    }
}

/// A radial gradient: shape, repeat flag, position, size keyword, and its
/// colors in paint order.
#[derive(Debug, Clone, PartialEq)]
pub struct RadialGradient {
    pub elipsis: bool,
    pub repeats: bool,
    pub position: PositionValue,
    pub size: RadialGradientSize,
    pub colors: Vec<Color>,
}

/// The mathematical shape of a [`RadialGradient`].
pub struct RadialModel {
    pub elipsis: bool,
    pub repeats: bool,
    pub position: (PositionValueType, ScalarModel),
    pub size: RadialGradientSize,
    pub colors: Seq<ColorModel>,
}

impl View for RadialGradient {
    type V = RadialModel;

    open spec fn view(&self) -> RadialModel {
        RadialModel {
            elipsis: self.elipsis,
            repeats: self.repeats,
            position: pos_model(self.position),
            size: self.size,
            colors: self.colors@.map_values(|c: Color| c@),
        }
    }
}

/// The attachment keywords.
#[derive(Debug, Copy, Clone, PartialEq, Eq, Structural)]
pub enum BackgroundAttachment {
    Scroll,
    Fixed,
    Local,
}

/// The blend-mode keywords.
#[derive(Debug, Copy, Clone, PartialEq, Eq, Structural)]
pub enum BackgroundBlendMode {
    Normal,
    Multiply,
    Screen,
    Overlay,
    Darken,
    Lighten,
    ColorDodge,
    Saturation,
    Color,
    Luminosity,
}

/// The clip keywords.
#[derive(Debug, Copy, Clone, PartialEq, Eq, Structural)]
pub enum BackgroundClip {
    BorderBox,
    PaddingBox,
    ContentBox,
}

/// The origin keywords.
#[derive(Debug, Copy, Clone, PartialEq, Eq, Structural)]
pub enum BackgroundOrigin {
    BorderBox,
    PaddingBox,
    ContentBox,
}

/// The repeat keywords.
#[derive(Debug, Copy, Clone, PartialEq, Eq, Structural)]
pub enum BackgroundRepeat {
    Repeat,
    RepeatX,
    RepeatY,
    NoRepeat,
    Space,
    Round,
}

/// A background size: a keyword, a percentage, or one or two lengths.
#[derive(Debug, Clone, PartialEq)]
pub enum BackgroundSize {
    Auto,
    Cover,
    Contain,
    Percentage(Scalar),
    Length(Scalar, Option<Scalar>),
}

/// The mathematical shape of a [`BackgroundSize`].
pub enum SizeModel {
    Auto,
    Cover,
    Contain,
    Percentage(ScalarModel),
    Length(ScalarModel, Option<ScalarModel>),
}

impl View for BackgroundSize {
    type V = SizeModel;

    open spec fn view(&self) -> SizeModel {
        match self {
            BackgroundSize::Auto => SizeModel::Auto,
            BackgroundSize::Cover => SizeModel::Cover,
            BackgroundSize::Contain => SizeModel::Contain,
            BackgroundSize::Percentage(s) => SizeModel::Percentage(s@),
            BackgroundSize::Length(a, b) => SizeModel::Length(
                a@,
                match b {
                    Some(s) => Some(s@),
                    None => None,
                },
            ),
        }
    }
}

/// A background image: a URL, nothing, or one of the gradient kinds.
#[derive(Debug, Clone, PartialEq)]
pub enum BackgroundImage {
    Url(String),
    NoImage,
    ConicGradient(ConicGradient),
    RadialGradient(RadialGradient),
    LinearGradient(LinearGradient),
}

/// The mathematical shape of a [`BackgroundImage`].
pub enum ImageModel {
    Url(Seq<char>),
    NoImage,
    Conic(ConicModel),
    Radial(RadialModel),
    Linear(LinearModel),
}

impl View for BackgroundImage {
    type V = ImageModel;

    open spec fn view(&self) -> ImageModel {
        match self {
            BackgroundImage::Url(u) => ImageModel::Url(u@),
            BackgroundImage::NoImage => ImageModel::NoImage,
            BackgroundImage::ConicGradient(g) => ImageModel::Conic(g@),
            BackgroundImage::RadialGradient(g) => ImageModel::Radial(g@),
            BackgroundImage::LinearGradient(g) => ImageModel::Linear(g@),
        }
    }
}

/// A background color: a color, or the element's current color.
#[derive(Debug, Clone, PartialEq)]
pub enum BackgroundColor {
    Color(Color),
    CurrentColor,
}

/// The mathematical shape of a [`BackgroundColor`].
pub enum BgColorModel {
    Color(ColorModel),
    CurrentColor,
}

impl View for BackgroundColor {
    type V = BgColorModel;

    open spec fn view(&self) -> BgColorModel {
        match self {
            BackgroundColor::Color(c) => BgColorModel::Color(c@),
            BackgroundColor::CurrentColor => BgColorModel::CurrentColor,
        }
    }
}

/// A position pair for the background shorthand.
#[derive(Debug, Clone, PartialEq)]
pub struct BackgroundPosition {
    pub x: PositionValue,
    pub y: PositionValue,
}

/// All sub-values of the background family gathered in one place: what
/// the shorthand form fills positionally.
#[derive(Debug, Clone, PartialEq)]
pub struct Background {
    pub color: BackgroundColor,
    pub image: Vec<BackgroundImage>,
    pub position: BackgroundPosition,
    pub attachment: BackgroundAttachment,
    pub blend_mode: BackgroundBlendMode,
    pub clip: BackgroundClip,
    pub origin: BackgroundOrigin,
    pub repeat: BackgroundRepeat,
    pub size: BackgroundSize,
}

/// The mathematical shape of a [`Background`].
pub struct BackgroundModel {
    pub color: BgColorModel,
    pub image: Seq<ImageModel>,
    pub position: ((PositionValueType, ScalarModel), (PositionValueType, ScalarModel)),
    pub attachment: BackgroundAttachment,
    pub blend_mode: BackgroundBlendMode,
    pub clip: BackgroundClip,
    pub origin: BackgroundOrigin,
    pub repeat: BackgroundRepeat,
    pub size: SizeModel,
}

impl View for Background {
    type V = BackgroundModel;

    open spec fn view(&self) -> BackgroundModel {
        BackgroundModel {
            color: self.color@,
            image: self.image@.map_values(|i: BackgroundImage| i@),
            position: (pos_model(self.position.x), pos_model(self.position.y)),
            attachment: self.attachment,
            blend_mode: self.blend_mode,
            clip: self.clip,
            origin: self.origin,
            repeat: self.repeat,
            size: self.size@,
        }
    }
}

/// The family's initial values: transparent, no images, both position
/// coordinates at zero percent, scrolling, normal blending, border-box
/// clip, padding-box origin, repeating, automatic size.
pub open spec fn initial_background() -> BackgroundModel {
    BackgroundModel {
        color: BgColorModel::Color(ColorModel::Transparent),
        image: Seq::empty(),
        position: (
            (PositionValueType::Percentage, whole_scalar(0)),
            (PositionValueType::Percentage, whole_scalar(0)),
        ),
        attachment: BackgroundAttachment::Scroll,
        blend_mode: BackgroundBlendMode::Normal,
        clip: BackgroundClip::BorderBox,
        origin: BackgroundOrigin::PaddingBox,
        repeat: BackgroundRepeat::Repeat,
        size: SizeModel::Auto,
    }
}

impl Background {
    /// The family's initial values, per [`initial_background`].
    pub fn initial() -> (r: Background)
        ensures
            r@ == initial_background(),
    {
        let r = Background {
            color: BackgroundColor::Color(Color::Transparent),
            image: Vec::new(),
            position: BackgroundPosition {
                x: PositionValue {
                    kind: PositionValueType::Percentage,
                    amount: Scalar::integer(0),
                },
                y: PositionValue {
                    kind: PositionValueType::Percentage,
                    amount: Scalar::integer(0),
                },
            },
            attachment: BackgroundAttachment::Scroll,
            blend_mode: BackgroundBlendMode::Normal,
            clip: BackgroundClip::BorderBox,
            origin: BackgroundOrigin::PaddingBox,
            repeat: BackgroundRepeat::Repeat,
            size: BackgroundSize::Auto,
        };
        proof {
            assert(r@.image =~= Seq::<ImageModel>::empty());
        }
        r
    }
}

/// The sub-properties of the background family.
#[derive(Debug, Copy, Clone, PartialEq, Eq, Structural)]
pub enum BackgroundProperty {
    Color,
    Image,
    Attachment,
    BlendMode,
    Clip,
    Origin,
    Repeat,
    Size,
}

/// A parsed background value, tagged by the sub-value kind it carries;
/// the shorthand form carries the whole family.
#[derive(Debug, Clone, PartialEq)]
pub enum BackgroundValue {
    Color(BackgroundColor),
    Image(BackgroundImage),
    Attachment(BackgroundAttachment),
    BlendMode(BackgroundBlendMode),
    Clip(BackgroundClip),
    Origin(BackgroundOrigin),
    Repeat(BackgroundRepeat),
    Size(BackgroundSize),
    Shorthand(Background),
}

/// The mathematical shape of a [`BackgroundValue`].
pub enum BgValueModel {
    Color(BgColorModel),
    Image(ImageModel),
    Attachment(BackgroundAttachment),
    BlendMode(BackgroundBlendMode),
    Clip(BackgroundClip),
    Origin(BackgroundOrigin),
    Repeat(BackgroundRepeat),
    Size(SizeModel),
    Shorthand(BackgroundModel),
}

impl View for BackgroundValue {
    type V = BgValueModel;

    open spec fn view(&self) -> BgValueModel {
        match self {
            BackgroundValue::Color(c) => BgValueModel::Color(c@),
            BackgroundValue::Image(i) => BgValueModel::Image(i@),
            BackgroundValue::Attachment(a) => BgValueModel::Attachment(*a),
            BackgroundValue::BlendMode(b) => BgValueModel::BlendMode(*b),
            BackgroundValue::Clip(c) => BgValueModel::Clip(*c),
            BackgroundValue::Origin(o) => BgValueModel::Origin(*o),
            BackgroundValue::Repeat(r) => BgValueModel::Repeat(*r),
            BackgroundValue::Size(s) => BgValueModel::Size(s@),
            BackgroundValue::Shorthand(b) => BgValueModel::Shorthand(b@),
        }
    }
}


// ---------------------------------------------------------------------
// The value grammars.
// ---------------------------------------------------------------------

/// The number a literal token carries, when it carries one.
pub open spec fn scalar_spec(t: TokenModel) -> Option<ScalarModel> {
    match t {
        TokenModel::IntLit(v) => Some(whole_scalar(v)),
        TokenModel::FloatLit(w, f) => Some(ScalarModel { whole: w, frac: f }),
        _ => None,
    }
}

/// A hue read from an integer token; out-of-range numbers are rejected.
pub open spec fn hue_spec(t: TokenModel) -> Option<int> {
    match t {
        TokenModel::IntLit(v) => if 0 <= v <= u16::MAX {
            Some(v)
        } else {
            None
        },
        _ => None,
    }
}

pub open spec fn attachment_kw(n: Seq<char>) -> Option<BackgroundAttachment> {
    if n == "scroll"@ {
        Some(BackgroundAttachment::Scroll)
    } else if n == "fixed"@ {
        Some(BackgroundAttachment::Fixed)
    } else if n == "local"@ {
        Some(BackgroundAttachment::Local)
    } else {
        None
    }
}

pub open spec fn blend_kw(n: Seq<char>) -> Option<BackgroundBlendMode> {
    if n == "normal"@ {
        Some(BackgroundBlendMode::Normal)
    } else if n == "multiply"@ {
        Some(BackgroundBlendMode::Multiply)
    } else if n == "screen"@ {
        Some(BackgroundBlendMode::Screen)
    } else if n == "overlay"@ {
        Some(BackgroundBlendMode::Overlay)
    } else if n == "darken"@ {
        Some(BackgroundBlendMode::Darken)
    } else if n == "lighten"@ {
        Some(BackgroundBlendMode::Lighten)
    } else if n == "color-dodge"@ {
        Some(BackgroundBlendMode::ColorDodge)
    } else if n == "saturation"@ {
        Some(BackgroundBlendMode::Saturation)
    } else if n == "color"@ {
        Some(BackgroundBlendMode::Color)
    } else if n == "luminosity"@ {
        Some(BackgroundBlendMode::Luminosity)
    } else {
        None
    }
}

pub open spec fn clip_kw(n: Seq<char>) -> Option<BackgroundClip> {
    if n == "border-box"@ {
        Some(BackgroundClip::BorderBox)
    } else if n == "padding-box"@ {
        Some(BackgroundClip::PaddingBox)
    } else if n == "content-box"@ {
        Some(BackgroundClip::ContentBox)
    } else {
        None
    }
}

pub open spec fn origin_kw(n: Seq<char>) -> Option<BackgroundOrigin> {
    if n == "border-box"@ {
        Some(BackgroundOrigin::BorderBox)
    } else if n == "padding-box"@ {
        Some(BackgroundOrigin::PaddingBox)
    } else if n == "content-box"@ {
        Some(BackgroundOrigin::ContentBox)
    } else {
        None
    }
}

pub open spec fn repeat_kw(n: Seq<char>) -> Option<BackgroundRepeat> {
    if n == "repeat"@ {
        Some(BackgroundRepeat::Repeat)
    } else if n == "repeat-x"@ {
        Some(BackgroundRepeat::RepeatX)
    } else if n == "repeat-y"@ {
        Some(BackgroundRepeat::RepeatY)
    } else if n == "no-repeat"@ {
        Some(BackgroundRepeat::NoRepeat)
    } else if n == "space"@ {
        Some(BackgroundRepeat::Space)
    } else if n == "round"@ {
        Some(BackgroundRepeat::Round)
    } else {
        None
    }
}

pub open spec fn pos_kw(n: Seq<char>) -> Option<PositionValueType> {
    if n == "left"@ {
        Some(PositionValueType::Left)
    } else if n == "right"@ {
        Some(PositionValueType::Right)
    } else if n == "center"@ {
        Some(PositionValueType::Center)
    } else if n == "top"@ {
        Some(PositionValueType::Top)
    } else if n == "bottom"@ {
        Some(PositionValueType::Bottom)
    } else {
        None
    }
}

/// The recognized length-unit suffixes.
pub open spec fn unit_kw(n: Seq<char>) -> Option<PositionValueType> {
    if n == "px"@ {
        Some(PositionValueType::Pixels)
    } else if n == "em"@ {
        Some(PositionValueType::Em)
    } else if n == "in"@ {
        Some(PositionValueType::Inch)
    } else if n == "pt"@ {
        Some(PositionValueType::Point)
    } else if n == "cm"@ {
        Some(PositionValueType::Centimetre)
    } else if n == "mm"@ {
        Some(PositionValueType::Millimetre)
    } else if n == "pc"@ {
        Some(PositionValueType::Pica)
    } else if n == "ex"@ {
        Some(PositionValueType::Ex)
    } else {
        None
    }
}

pub open spec fn dir_kw(n: Seq<char>) -> Option<Direction> {
    if n == "left"@ {
        Some(Direction::Left)
    } else if n == "right"@ {
        Some(Direction::Right)
    } else if n == "bottom"@ {
        Some(Direction::Bottom)
    } else if n == "top"@ {
        Some(Direction::Top)
    } else {
        None
    }
}

/// The attachment grammar: exactly one attachment keyword.
pub open spec fn attachment_spec(t: Seq<TokenModel>) -> Option<BackgroundAttachment> {
    if t.len() == 1 {
        match t[0] {
            TokenModel::Identifier(n) => attachment_kw(n),
            _ => None,
        }
    } else {
        None
    }
}

/// The blend-mode grammar: exactly one blend-mode keyword.
pub open spec fn blend_spec(t: Seq<TokenModel>) -> Option<BackgroundBlendMode> {
    if t.len() == 1 {
        match t[0] {
            TokenModel::Identifier(n) => blend_kw(n),
            _ => None,
        }
    } else {
        None
    }
}

/// The clip grammar: exactly one box keyword.
pub open spec fn clip_spec(t: Seq<TokenModel>) -> Option<BackgroundClip> {
    if t.len() == 1 {
        match t[0] {
            TokenModel::Identifier(n) => clip_kw(n),
            _ => None,
        }
    } else {
        None
    }
}

/// The origin grammar: exactly one box keyword.
pub open spec fn origin_spec(t: Seq<TokenModel>) -> Option<BackgroundOrigin> {
    if t.len() == 1 {
        match t[0] {
            TokenModel::Identifier(n) => origin_kw(n),
            _ => None,
        }
    } else {
        None
    }
}

/// The repeat grammar: exactly one repeat keyword.
pub open spec fn repeat_spec(t: Seq<TokenModel>) -> Option<BackgroundRepeat> {
    if t.len() == 1 {
        match t[0] {
            TokenModel::Identifier(n) => repeat_kw(n),
            _ => None,
        }
    } else {
        None
    }
}

/// A named color: `transparent` and `currentcolor` are keywords; any
/// other identifier is taken as a color name.
pub open spec fn named_color(n: Seq<char>) -> BgColorModel {
    if n == "transparent"@ {
        BgColorModel::Color(ColorModel::Transparent)
    } else if n == "currentcolor"@ {
        BgColorModel::CurrentColor
    } else {
        BgColorModel::Color(ColorModel::Name(n))
    }
}

/// The color grammar: a single identifier, or one of the function forms
/// `rgb(n, n, n)`, `rgba(n, n, n, n)`, `hsl(h, s%, l%)`,
/// `hsla(h, s%, l%, a)`.
pub open spec fn color_spec(t: Seq<TokenModel>) -> Option<BgColorModel> {
    if t.len() == 1 {
        match t[0] {
            TokenModel::Identifier(n) => Some(named_color(n)),
            _ => None,
        }
    } else if t.len() == 8 && t[0] == TokenModel::Identifier("rgb"@) && t[1] is OpenB && t[3]
        == TokenModel::Other(","@) && t[5] == TokenModel::Other(","@) && t[7] is CloseB
        && scalar_spec(t[2]) is Some && scalar_spec(t[4]) is Some && scalar_spec(t[6]) is Some {
        Some(
            BgColorModel::Color(
                ColorModel::RGB(
                    scalar_spec(t[2])->Some_0,
                    scalar_spec(t[4])->Some_0,
                    scalar_spec(t[6])->Some_0,
                ),
            ),
        )
    } else if t.len() == 10 && t[0] == TokenModel::Identifier("rgba"@) && t[1] is OpenB && t[3]
        == TokenModel::Other(","@) && t[5] == TokenModel::Other(","@) && t[7] == TokenModel::Other(
        ","@,
    ) && t[9] is CloseB && scalar_spec(t[2]) is Some && scalar_spec(t[4]) is Some && scalar_spec(
        t[6],
    ) is Some && scalar_spec(t[8]) is Some {
        Some(
            BgColorModel::Color(
                ColorModel::RGBA(
                    scalar_spec(t[2])->Some_0,
                    scalar_spec(t[4])->Some_0,
                    scalar_spec(t[6])->Some_0,
                    scalar_spec(t[8])->Some_0,
                ),
            ),
        )
    } else if t.len() == 10 && t[0] == TokenModel::Identifier("hsl"@) && t[1] is OpenB && t[3]
        == TokenModel::Other(","@) && t[5] == TokenModel::Other("%"@) && t[6] == TokenModel::Other(
        ","@,
    ) && t[8] == TokenModel::Other("%"@) && t[9] is CloseB && hue_spec(t[2]) is Some
        && scalar_spec(t[4]) is Some && scalar_spec(t[7]) is Some {
        Some(
            BgColorModel::Color(
                ColorModel::HSL(
                    hue_spec(t[2])->Some_0,
                    scalar_spec(t[4])->Some_0,
                    scalar_spec(t[7])->Some_0,
                ),
            ),
        )
    } else if t.len() == 12 && t[0] == TokenModel::Identifier("hsla"@) && t[1] is OpenB && t[3]
        == TokenModel::Other(","@) && t[5] == TokenModel::Other("%"@) && t[6] == TokenModel::Other(
        ","@,
    ) && t[8] == TokenModel::Other("%"@) && t[9] == TokenModel::Other(","@) && t[11] is CloseB
        && hue_spec(t[2]) is Some && scalar_spec(t[4]) is Some && scalar_spec(t[7]) is Some
        && scalar_spec(t[10]) is Some {
        Some(
            BgColorModel::Color(
                ColorModel::HSLA(
                    hue_spec(t[2])->Some_0,
                    scalar_spec(t[4])->Some_0,
                    scalar_spec(t[7])->Some_0,
                    scalar_spec(t[10])->Some_0,
                ),
            ),
        )
    } else {
        None
    }
}

/// The position grammar: a keyword, or a number with a unit suffix.
pub open spec fn pos_spec(t: Seq<TokenModel>) -> Option<(PositionValueType, ScalarModel)> {
    if t.len() == 1 {
        match t[0] {
            TokenModel::Identifier(n) => match pos_kw(n) {
                Some(k) => Some((k, whole_scalar(0))),
                None => None,
            },
            _ => None,
        }
    } else if t.len() == 2 && scalar_spec(t[0]) is Some {
        match t[1] {
            TokenModel::Identifier(n) => match unit_kw(n) {
                Some(k) => Some((k, scalar_spec(t[0])->Some_0)),
                None => None,
            },
            TokenModel::Other(p) => if p == "%"@ {
                Some((PositionValueType::Percentage, scalar_spec(t[0])->Some_0))
            } else {
                None
            },
            _ => None,
        }
    } else {
        None
    }
}

/// The size grammar: a keyword, a percentage, or one or two lengths.
pub open spec fn size_spec(t: Seq<TokenModel>) -> Option<SizeModel> {
    if t.len() == 1 {
        match t[0] {
            TokenModel::Identifier(n) => if n == "auto"@ {
                Some(SizeModel::Auto)
            } else if n == "cover"@ {
                Some(SizeModel::Cover)
            } else if n == "contain"@ {
                Some(SizeModel::Contain)
            } else {
                None
            },
            _ => None,
        }
    } else if t.len() == 2 && scalar_spec(t[0]) is Some {
        match t[1] {
            TokenModel::Other(p) => if p == "%"@ {
                Some(SizeModel::Percentage(scalar_spec(t[0])->Some_0))
            } else {
                None
            },
            TokenModel::Identifier(n) => if unit_kw(n) is Some {
                Some(SizeModel::Length(scalar_spec(t[0])->Some_0, None))
            } else {
                None
            },
            _ => None,
        }
    } else if t.len() == 4 && scalar_spec(t[0]) is Some && scalar_spec(t[2]) is Some {
        match (t[1], t[3]) {
            (TokenModel::Identifier(n1), TokenModel::Identifier(n2)) => if unit_kw(n1) is Some
                && unit_kw(n2) is Some {
                Some(
                    SizeModel::Length(
                        scalar_spec(t[0])->Some_0,
                        Some(scalar_spec(t[2])->Some_0),
                    ),
                )
            } else {
                None
            },
            _ => None,
        }
    } else {
        None
    }
}


// ---------------------------------------------------------------------
// Token helpers for the grammars.
// ---------------------------------------------------------------------

/// Whether `t` is the identifier `kw`.
fn kw_eq(t: &Token, kw: &str) -> (b: bool)
    ensures
        b == (t@ == TokenModel::Identifier(kw@)),
{
    match t {
        Token::Identifier(s) => str_eq(s.as_str(), kw),
        _ => false,
    }
}

/// Whether `t` is the punctuation `p`.
fn punct_eq(t: &Token, p: &str) -> (b: bool)
    ensures
        b == (t@ == TokenModel::Other(p@)),
{
    match t {
        Token::Other(s) => str_eq(s.as_str(), p),
        _ => false,
    }
}

/// The number `t` carries, per [`scalar_spec`].
fn scalar_of(t: &Token) -> (r: Option<Scalar>)
    ensures
        match scalar_spec(t@) {
            Some(sm) => r is Some && r->0@ == sm,
            None => r is None,
        },
{
    match t {
        Token::Literal(crate::lex::Literal::Integer(n)) => Some(Scalar::integer(*n)),
        Token::Literal(crate::lex::Literal::Floater(sc)) => Some(
            Scalar { whole: sc.whole, frac: sc.frac.clone() },
        ),
        _ => None,
    }
}

/// The hue `t` carries, per [`hue_spec`].
fn hue_of(t: &Token) -> (r: Option<Hue>)
    ensures
        match hue_spec(t@) {
            Some(v) => r is Some && r->0.val == v,
            None => r is None,
        },
{
    match t {
        Token::Literal(crate::lex::Literal::Integer(n)) => {
            if 0 <= *n && *n <= 65535 {
                Some(Hue { val: *n as u16 })
            } else {
                None
            }
        }
        _ => None,
    }
}

/// The single identifier the run consists of, when it is one.
fn single_ident<'a>(toks: &'a Vec<Token>) -> (r: Option<&'a String>)
    ensures
        match r {
            Some(s) => toks_model(toks@).len() == 1 && toks_model(toks@)[0]
                == TokenModel::Identifier(s@),
            None => !(toks_model(toks@).len() == 1 && toks_model(toks@)[0] is Identifier),
        },
{
    proof {
        if toks@.len() > 0 {
            assert(toks_model(toks@)[0] == toks@[0]@);
        }
    }
    if toks.len() == 1 {
        match &toks[0] {
            Token::Identifier(s) => Some(s),
            _ => None,
        }
    } else {
        None
    }
}

// ---------------------------------------------------------------------
// The keyword grammars.
// ---------------------------------------------------------------------

fn attachment_kw_x(n: &String) -> (r: Option<BackgroundAttachment>)
    ensures
        r == attachment_kw(n@),
{
    if str_eq(n.as_str(), "scroll") {
        Some(BackgroundAttachment::Scroll)
    } else if str_eq(n.as_str(), "fixed") {
        Some(BackgroundAttachment::Fixed)
    } else if str_eq(n.as_str(), "local") {
        Some(BackgroundAttachment::Local)
    } else {
        None
    }
}

fn blend_kw_x(n: &String) -> (r: Option<BackgroundBlendMode>)
    ensures
        r == blend_kw(n@),
{
    if str_eq(n.as_str(), "normal") {
        Some(BackgroundBlendMode::Normal)
    } else if str_eq(n.as_str(), "multiply") {
        Some(BackgroundBlendMode::Multiply)
    } else if str_eq(n.as_str(), "screen") {
        Some(BackgroundBlendMode::Screen)
    } else if str_eq(n.as_str(), "overlay") {
        Some(BackgroundBlendMode::Overlay)
    } else if str_eq(n.as_str(), "darken") {
        Some(BackgroundBlendMode::Darken)
    } else if str_eq(n.as_str(), "lighten") {
        Some(BackgroundBlendMode::Lighten)
    } else if str_eq(n.as_str(), "color-dodge") {
        Some(BackgroundBlendMode::ColorDodge)
    } else if str_eq(n.as_str(), "saturation") {
        Some(BackgroundBlendMode::Saturation)
    } else if str_eq(n.as_str(), "color") {
        Some(BackgroundBlendMode::Color)
    } else if str_eq(n.as_str(), "luminosity") {
        Some(BackgroundBlendMode::Luminosity)
    } else {
        None
    }
}

fn clip_kw_x(n: &String) -> (r: Option<BackgroundClip>)
    ensures
        r == clip_kw(n@),
{
    if str_eq(n.as_str(), "border-box") {
        Some(BackgroundClip::BorderBox)
    } else if str_eq(n.as_str(), "padding-box") {
        Some(BackgroundClip::PaddingBox)
    } else if str_eq(n.as_str(), "content-box") {
        Some(BackgroundClip::ContentBox)
    } else {
        None
    }
}

fn origin_kw_x(n: &String) -> (r: Option<BackgroundOrigin>)
    ensures
        r == origin_kw(n@),
{
    if str_eq(n.as_str(), "border-box") {
        Some(BackgroundOrigin::BorderBox)
    } else if str_eq(n.as_str(), "padding-box") {
        Some(BackgroundOrigin::PaddingBox)
    } else if str_eq(n.as_str(), "content-box") {
        Some(BackgroundOrigin::ContentBox)
    } else {
        None
    }
}

fn repeat_kw_x(n: &String) -> (r: Option<BackgroundRepeat>)
    ensures
        r == repeat_kw(n@),
{
    if str_eq(n.as_str(), "repeat") {
        Some(BackgroundRepeat::Repeat)
    } else if str_eq(n.as_str(), "repeat-x") {
        Some(BackgroundRepeat::RepeatX)
    } else if str_eq(n.as_str(), "repeat-y") {
        Some(BackgroundRepeat::RepeatY)
    } else if str_eq(n.as_str(), "no-repeat") {
        Some(BackgroundRepeat::NoRepeat)
    } else if str_eq(n.as_str(), "space") {
        Some(BackgroundRepeat::Space)
    } else if str_eq(n.as_str(), "round") {
        Some(BackgroundRepeat::Round)
    } else {
        None
    }
}

fn pos_kw_x(n: &String) -> (r: Option<PositionValueType>)
    ensures
        r == pos_kw(n@),
{
    if str_eq(n.as_str(), "left") {
        Some(PositionValueType::Left)
    } else if str_eq(n.as_str(), "right") {
        Some(PositionValueType::Right)
    } else if str_eq(n.as_str(), "center") {
        Some(PositionValueType::Center)
    } else if str_eq(n.as_str(), "top") {
        Some(PositionValueType::Top)
    } else if str_eq(n.as_str(), "bottom") {
        Some(PositionValueType::Bottom)
    } else {
        None
    }
}

fn unit_kw_x(n: &String) -> (r: Option<PositionValueType>)
    ensures
        r == unit_kw(n@),
{
    if str_eq(n.as_str(), "px") {
        Some(PositionValueType::Pixels)
    } else if str_eq(n.as_str(), "em") {
        Some(PositionValueType::Em)
    } else if str_eq(n.as_str(), "in") {
        Some(PositionValueType::Inch)
    } else if str_eq(n.as_str(), "pt") {
        Some(PositionValueType::Point)
    } else if str_eq(n.as_str(), "cm") {
        Some(PositionValueType::Centimetre)
    } else if str_eq(n.as_str(), "mm") {
        Some(PositionValueType::Millimetre)
    } else if str_eq(n.as_str(), "pc") {
        Some(PositionValueType::Pica)
    } else if str_eq(n.as_str(), "ex") {
        Some(PositionValueType::Ex)
    } else {
        None
    }
}

fn dir_kw_x(n: &String) -> (r: Option<Direction>)
    ensures
        r == dir_kw(n@),
{
    if str_eq(n.as_str(), "left") {
        Some(Direction::Left)
    } else if str_eq(n.as_str(), "right") {
        Some(Direction::Right)
    } else if str_eq(n.as_str(), "bottom") {
        Some(Direction::Bottom)
    } else if str_eq(n.as_str(), "top") {
        Some(Direction::Top)
    } else {
        None
    }
}

/// Reads a `background-attachment` value: one attachment keyword.
pub fn attachment(toks: &Vec<Token>) -> (r: Result<BackgroundValue, Error>)
    ensures
        match attachment_spec(toks_model(toks@)) {
            Some(a) => r is Ok && r->Ok_0@ == BgValueModel::Attachment(a),
            None => r is Err && r->Err_0 == Error::InvalidValue,
        },
{
    match single_ident(toks) {
        Some(n) => match attachment_kw_x(n) {
            Some(a) => Ok(BackgroundValue::Attachment(a)),
            None => Err(Error::InvalidValue),
        },
        None => Err(Error::InvalidValue),
    }
}

/// Reads a `background-blend-mode` value: one blend-mode keyword.
pub fn blend_mode(toks: &Vec<Token>) -> (r: Result<BackgroundValue, Error>)
    ensures
        match blend_spec(toks_model(toks@)) {
            Some(b) => r is Ok && r->Ok_0@ == BgValueModel::BlendMode(b),
            None => r is Err && r->Err_0 == Error::InvalidValue,
        },
{
    match single_ident(toks) {
        Some(n) => match blend_kw_x(n) {
            Some(b) => Ok(BackgroundValue::BlendMode(b)),
            None => Err(Error::InvalidValue),
        },
        None => Err(Error::InvalidValue),
    }
}

/// Reads a `background-clip` value: one box keyword.
pub fn clip(toks: &Vec<Token>) -> (r: Result<BackgroundValue, Error>)
    ensures
        match clip_spec(toks_model(toks@)) {
            Some(c) => r is Ok && r->Ok_0@ == BgValueModel::Clip(c),
            None => r is Err && r->Err_0 == Error::InvalidValue,
        },
{
    match single_ident(toks) {
        Some(n) => match clip_kw_x(n) {
            Some(c) => Ok(BackgroundValue::Clip(c)),
            None => Err(Error::InvalidValue),
        },
        None => Err(Error::InvalidValue),
    }
}

/// Reads a `background-origin` value: one box keyword.
pub fn origin(toks: &Vec<Token>) -> (r: Result<BackgroundValue, Error>)
    ensures
        match origin_spec(toks_model(toks@)) {
            Some(o) => r is Ok && r->Ok_0@ == BgValueModel::Origin(o),
            None => r is Err && r->Err_0 == Error::InvalidValue,
        },
{
    match single_ident(toks) {
        Some(n) => match origin_kw_x(n) {
            Some(o) => Ok(BackgroundValue::Origin(o)),
            None => Err(Error::InvalidValue),
        },
        None => Err(Error::InvalidValue),
    }
}

/// Reads a `background-repeat` value: one repeat keyword.
pub fn repeat(toks: &Vec<Token>) -> (r: Result<BackgroundValue, Error>)
    ensures
        match repeat_spec(toks_model(toks@)) {
            Some(x) => r is Ok && r->Ok_0@ == BgValueModel::Repeat(x),
            None => r is Err && r->Err_0 == Error::InvalidValue,
        },
{
    match single_ident(toks) {
        Some(n) => match repeat_kw_x(n) {
            Some(x) => Ok(BackgroundValue::Repeat(x)),
            None => Err(Error::InvalidValue),
        },
        None => Err(Error::InvalidValue),
    }
}


/// Reads a color per [`color_spec`].
fn color_x(toks: &Vec<Token>) -> (r: Option<BackgroundColor>)
    ensures
        match color_spec(toks_model(toks@)) {
            Some(c) => r is Some && r->0@ == c,
            None => r is None,
        },
{
    let ghost tm = toks_model(toks@);
    proof {
        assert(tm.len() == toks@.len());
        assert(forall|i: int| 0 <= i < toks@.len() ==> tm[i] == #[trigger] toks@[i]@);
    }
    if toks.len() == 1 {
        match &toks[0] {
            Token::Identifier(n) => {
                if str_eq(n.as_str(), "transparent") {
                    Some(BackgroundColor::Color(Color::Transparent))
                } else if str_eq(n.as_str(), "currentcolor") {
                    Some(BackgroundColor::CurrentColor)
                } else {
                    Some(BackgroundColor::Color(Color::Name(n.clone())))
                }
            }
            _ => None,
        }
    } else if toks.len() == 8 && kw_eq(&toks[0], "rgb") && toks[1].obracket() && punct_eq(
        &toks[3],
        ",",
    ) && punct_eq(&toks[5], ",") && toks[7].cbracket() {
        let a = scalar_of(&toks[2]);
        let b = scalar_of(&toks[4]);
        let c = scalar_of(&toks[6]);
        match (a, b, c) {
            (Some(a), Some(b), Some(c)) => Some(BackgroundColor::Color(Color::RGB(a, b, c))),
            _ => None,
        }
    } else if toks.len() == 10 && kw_eq(&toks[0], "rgba") && toks[1].obracket() && punct_eq(
        &toks[3],
        ",",
    ) && punct_eq(&toks[5], ",") && punct_eq(&toks[7], ",") && toks[9].cbracket() {
        let a = scalar_of(&toks[2]);
        let b = scalar_of(&toks[4]);
        let c = scalar_of(&toks[6]);
        let d = scalar_of(&toks[8]);
        match (a, b, c, d) {
            (Some(a), Some(b), Some(c), Some(d)) => Some(
                BackgroundColor::Color(Color::RGBA(a, b, c, d)),
            ),
            _ => None,
        }
    } else if toks.len() == 10 && kw_eq(&toks[0], "hsl") && toks[1].obracket() && punct_eq(
        &toks[3],
        ",",
    ) && punct_eq(&toks[5], "%") && punct_eq(&toks[6], ",") && punct_eq(&toks[8], "%")
        && toks[9].cbracket() {
        let h = hue_of(&toks[2]);
        let sv = scalar_of(&toks[4]);
        let lv = scalar_of(&toks[7]);
        match (h, sv, lv) {
            (Some(h), Some(sv), Some(lv)) => Some(
                BackgroundColor::Color(
                    Color::HSL(h, Saturation { val: sv }, Lightness { val: lv }),
                ),
            ),
            _ => None,
        }
    } else if toks.len() == 12 && kw_eq(&toks[0], "hsla") && toks[1].obracket() && punct_eq(
        &toks[3],
        ",",
    ) && punct_eq(&toks[5], "%") && punct_eq(&toks[6], ",") && punct_eq(&toks[8], "%") && punct_eq(
        &toks[9],
        ",",
    ) && toks[11].cbracket() {
        let h = hue_of(&toks[2]);
        let sv = scalar_of(&toks[4]);
        let lv = scalar_of(&toks[7]);
        let av = scalar_of(&toks[10]);
        match (h, sv, lv, av) {
            (Some(h), Some(sv), Some(lv), Some(av)) => Some(
                BackgroundColor::Color(
                    Color::HSLA(h, Saturation { val: sv }, Lightness { val: lv }, av),
                ),
            ),
            _ => None,
        }
    } else {
        None
    }
}

/// Reads a `background-color` value per [`color_spec`].
pub fn color(toks: &Vec<Token>) -> (r: Result<BackgroundValue, Error>)
    ensures
        match color_spec(toks_model(toks@)) {
            Some(c) => r is Ok && r->Ok_0@ == BgValueModel::Color(c),
            None => r is Err && r->Err_0 == Error::InvalidValue,
        },
{
    match color_x(toks) {
        Some(c) => Ok(BackgroundValue::Color(c)),
        None => Err(Error::InvalidValue),
    }
}

/// Reads a position value per [`pos_spec`].
fn pos_x(toks: &Vec<Token>) -> (r: Option<PositionValue>)
    ensures
        match pos_spec(toks_model(toks@)) {
            Some(p) => r is Some && pos_model(r->0) == p,
            None => r is None,
        },
{
    let ghost tm = toks_model(toks@);
    proof {
        assert(tm.len() == toks@.len());
        assert(forall|i: int| 0 <= i < toks@.len() ==> tm[i] == #[trigger] toks@[i]@);
    }
    if toks.len() == 1 {
        match &toks[0] {
            Token::Identifier(n) => match pos_kw_x(n) {
                Some(k) => Some(PositionValue { kind: k, amount: Scalar::integer(0) }),
                None => None,
            },
            _ => None,
        }
    } else if toks.len() == 2 {
        match scalar_of(&toks[0]) {
            Some(sc) => {
                match &toks[1] {
                    Token::Identifier(n) => match unit_kw_x(n) {
                        Some(k) => Some(PositionValue { kind: k, amount: sc }),
                        None => None,
                    },
                    Token::Other(p) => {
                        if str_eq(p.as_str(), "%") {
                            Some(
                                PositionValue { kind: PositionValueType::Percentage, amount: sc },
                            )
                        } else {
                            None
                        }
                    }
                    _ => None,
                }
            }
            None => None,
        }
    } else {
        None
    }
}

/// Reads a `background-size` value per [`size_spec`].
pub fn size(toks: &Vec<Token>) -> (r: Result<BackgroundValue, Error>)
    ensures
        match size_spec(toks_model(toks@)) {
            Some(sm) => r is Ok && r->Ok_0@ == BgValueModel::Size(sm),
            None => r is Err && r->Err_0 == Error::InvalidValue,
        },
{
    let ghost tm = toks_model(toks@);
    proof {
        assert(tm.len() == toks@.len());
        assert(forall|i: int| 0 <= i < toks@.len() ==> tm[i] == #[trigger] toks@[i]@);
    }
    if toks.len() == 1 {
        match &toks[0] {
            Token::Identifier(n) => {
                if str_eq(n.as_str(), "auto") {
                    Ok(BackgroundValue::Size(BackgroundSize::Auto))
                } else if str_eq(n.as_str(), "cover") {
                    Ok(BackgroundValue::Size(BackgroundSize::Cover))
                } else if str_eq(n.as_str(), "contain") {
                    Ok(BackgroundValue::Size(BackgroundSize::Contain))
                } else {
                    Err(Error::InvalidValue)
                }
            }
            _ => Err(Error::InvalidValue),
        }
    } else if toks.len() == 2 {
        match scalar_of(&toks[0]) {
            Some(sc) => {
                match &toks[1] {
                    Token::Other(p) => {
                        if str_eq(p.as_str(), "%") {
                            Ok(BackgroundValue::Size(BackgroundSize::Percentage(sc)))
                        } else {
                            Err(Error::InvalidValue)
                        }
                    }
                    Token::Identifier(n) => match unit_kw_x(n) {
                        Some(_) => Ok(BackgroundValue::Size(BackgroundSize::Length(sc, None))),
                        None => Err(Error::InvalidValue),
                    },
                    _ => Err(Error::InvalidValue),
                }
            }
            None => Err(Error::InvalidValue),
        }
    } else if toks.len() == 4 {
        let s0 = scalar_of(&toks[0]);
        let s2 = scalar_of(&toks[2]);
        match (s0, s2) {
            (Some(a), Some(b)) => {
                match (&toks[1], &toks[3]) {
                    (Token::Identifier(n1), Token::Identifier(n2)) => {
                        let u1 = unit_kw_x(n1);
                        let u2 = unit_kw_x(n2);
                        if u1.is_some() && u2.is_some() {
                            Ok(BackgroundValue::Size(BackgroundSize::Length(a, Some(b))))
                        } else {
                            Err(Error::InvalidValue)
                        }
                    }
                    _ => Err(Error::InvalidValue),
                }
            }
            _ => Err(Error::InvalidValue),
        }
    } else {
        Err(Error::InvalidValue)
    }
}


// ---------------------------------------------------------------------
// Splitting a function body at top-level commas.
// ---------------------------------------------------------------------

/// The splitter's state: finished segments, the open segment, and the
/// bracket depth.
pub struct SplitState {
    pub done: Seq<Seq<TokenModel>>,
    pub cur: Seq<TokenModel>,
    pub depth: int,
}

/// One splitter step: a comma at depth zero closes the open segment;
/// everything else joins it, brackets tracking the depth.
pub open spec fn split_step(st: SplitState, t: TokenModel) -> SplitState {
    if t == TokenModel::Other(","@) && st.depth == 0 {
        SplitState { done: st.done.push(st.cur), cur: Seq::empty(), depth: 0 }
    } else {
        let d: int = if t is OpenB {
            st.depth + 1
        } else if t is CloseB && st.depth > 0 {
            st.depth - 1
        } else {
            st.depth
        };
        SplitState { done: st.done, cur: st.cur.push(t), depth: d }
    }
}

pub open spec fn split_init() -> SplitState {
    SplitState { done: Seq::empty(), cur: Seq::empty(), depth: 0 }
}

pub open spec fn split_from(st: SplitState, t: Seq<TokenModel>) -> SplitState
    decreases t.len(),
{
    if t.len() == 0 {
        st
    } else {
        split_step(split_from(st, t.drop_last()), t.last())
    }
}

/// The segments of `t` between its top-level commas, in order. There is
/// always at least one segment; empty segments stand for empty arguments.
pub open spec fn split_args(t: Seq<TokenModel>) -> Seq<Seq<TokenModel>> {
    let st = split_from(split_init(), t);
    st.done.push(st.cur)
}

/// The mathematical shape of a vector of token segments.
pub open spec fn args_model(v: Seq<Vec<Token>>) -> Seq<Seq<TokenModel>> {
    v.map_values(|x: Vec<Token>| toks_model(x@))
}

/// Splits `toks[from..to]` at its top-level commas, per [`split_args`].
fn split_args_x(toks: &Vec<Token>, from: usize, to: usize) -> (r: Vec<Vec<Token>>)
    requires
        from <= to <= toks@.len(),
    ensures
        args_model(r@) == split_args(toks_model(toks@).subrange(from as int, to as int)),
{
    let ghost seg = toks_model(toks@).subrange(from as int, to as int);
    let mut done: Vec<Vec<Token>> = Vec::new();
    let mut cur: Vec<Token> = Vec::new();
    let mut depth: usize = 0;
    let mut i: usize = from;
    proof {
        assert(seg.take(0) =~= Seq::<TokenModel>::empty());
        assert(args_model(done@) =~= Seq::<Seq<TokenModel>>::empty());
        assert(toks_model(cur@) =~= Seq::<TokenModel>::empty());
    }
    while i < to
        invariant
            from <= i <= to <= toks@.len(),
            seg == toks_model(toks@).subrange(from as int, to as int),
            depth <= i - from,
            split_from(split_init(), seg.take(i - from)) == (SplitState {
                done: args_model(done@),
                cur: toks_model(cur@),
                depth: depth as int,
            }),
        decreases to - i,
    {
        let ghost pre = SplitState {
            done: args_model(done@),
            cur: toks_model(cur@),
            depth: depth as int,
        };
        proof {
            assert(seg.take(i - from + 1).drop_last() =~= seg.take(i - from));
            assert(seg.take(i - from + 1).last() == seg[i - from]);
            assert(seg[i - from] == toks@[i as int]@);
        }
        let t = &toks[i];
        if punct_eq(t, ",") && depth == 0 {
            let finished = cur;
            done.push(finished);
            cur = Vec::new();
            proof {
                assert(args_model(done@) =~= pre.done.push(pre.cur));
                assert(toks_model(cur@) =~= Seq::<TokenModel>::empty());
            }
        } else {
            if t.obracket() {
                depth += 1;
            } else if t.cbracket() && depth > 0 {
                depth -= 1;
            }
            cur.push(t.duplicate());
            proof {
                assert(toks_model(cur@) =~= pre.cur.push(toks@[i as int]@));
            }
        }
        i += 1;
    }
    proof {
        assert(seg.take(to - from) =~= seg);
    }
    done.push(cur);
    proof {
        assert(args_model(done@) =~= split_args(seg));
    }
    done
}

/// A copy of `v[from..to]`.
fn subtokens(v: &Vec<Token>, from: usize, to: usize) -> (r: Vec<Token>)
    requires
        from <= to <= v@.len(),
    ensures
        toks_model(r@) == toks_model(v@).subrange(from as int, to as int),
{
    let mut r: Vec<Token> = Vec::new();
    let mut i: usize = from;
    proof {
        assert(toks_model(r@) =~= toks_model(v@).subrange(from as int, from as int));
    }
    while i < to
        invariant
            from <= i <= to <= v@.len(),
            toks_model(r@) == toks_model(v@).subrange(from as int, i as int),
        decreases to - i,
    {
        let ghost prev = r@;
        r.push(v[i].duplicate());
        proof {
            assert(toks_model(r@) =~= toks_model(prev).push(v@[i as int]@));
            assert(toks_model(v@).subrange(from as int, i + 1) =~= toks_model(v@).subrange(
                from as int,
                i as int,
            ).push(toks_model(v@)[i as int]));
            assert(toks_model(v@)[i as int] == v@[i as int]@);
        }
        i += 1;
    }
    r
}

// ---------------------------------------------------------------------
// The gradient grammars.
// ---------------------------------------------------------------------

/// The colors of a gradient: every argument from `i` on must be a color.
pub open spec fn colors_from(args: Seq<Seq<TokenModel>>, i: int) -> Option<Seq<ColorModel>>
    decreases args.len() - i,
{
    if i < 0 || i >= args.len() {
        Some(Seq::empty())
    } else {
        match color_spec(args[i]) {
            Some(BgColorModel::Color(c)) => match colors_from(args, i + 1) {
                Some(rest) => Some(seq![c] + rest),
                None => None,
            },
            _ => None,
        }
    }
}

/// Reads the gradient colors from argument `from` on, per [`colors_from`].
fn colors_x(args: &Vec<Vec<Token>>, from: usize) -> (r: Option<Vec<Color>>)
    requires
        from <= args@.len(),
    ensures
        match colors_from(args_model(args@), from as int) {
            Some(cs) => r is Some && r->0@.map_values(|c: Color| c@) == cs,
            None => r is None,
        },
{
    let ghost am = args_model(args@);
    let mut out: Vec<Color> = Vec::new();
    let mut j: usize = from;
    proof {
        assert(out@.map_values(|c: Color| c@) =~= Seq::<ColorModel>::empty());
        assert(Seq::<ColorModel>::empty() + colors_from(am, from as int)->Some_0 =~= colors_from(
            am,
            from as int,
        )->Some_0);
    }
    while j < args.len()
        invariant
            from <= j <= args@.len(),
            am == args_model(args@),
            colors_from(am, from as int) is Some <==> colors_from(am, j as int) is Some,
            colors_from(am, from as int) is Some ==> colors_from(am, from as int)->Some_0
                == out@.map_values(|c: Color| c@) + colors_from(am, j as int)->Some_0,
        decreases args@.len() - j,
    {
        proof {
            assert(am[j as int] == toks_model(args@[j as int]@));
        }
        let ghost out_pre = out@.map_values(|c: Color| c@);
        match color_x(&args[j]) {
            Some(BackgroundColor::Color(c)) => {
                let ghost cm = c@;
                out.push(c);
                proof {
                    assert(out@.map_values(|c: Color| c@) =~= out_pre.push(cm));
                    if colors_from(am, j as int) is Some {
                        assert(out_pre.push(cm) + colors_from(am, j + 1)->Some_0 =~= out_pre + (seq![
                            cm,
                        ] + colors_from(am, j + 1)->Some_0));
                    }
                }
            }
            _ => {
                return None;
            }
        }
        j += 1;
    }
    Some(out)
}

/// The direction part of a linear gradient: one or two direction
/// keywords, optionally preceded by `to`.
pub open spec fn dir_part(seg: Seq<TokenModel>) -> Option<DirectionPair> {
    if seg.len() == 1 {
        match seg[0] {
            TokenModel::Identifier(n) => match dir_kw(n) {
                Some(d) => Some(DirectionPair { first: d, second: None }),
                None => None,
            },
            _ => None,
        }
    } else if seg.len() == 2 {
        match (seg[0], seg[1]) {
            (TokenModel::Identifier(a), TokenModel::Identifier(b)) => if a == "to"@ {
                match dir_kw(b) {
                    Some(d) => Some(DirectionPair { first: d, second: None }),
                    None => None,
                }
            } else {
                match (dir_kw(a), dir_kw(b)) {
                    (Some(d1), Some(d2)) => Some(DirectionPair { first: d1, second: Some(d2) }),
                    _ => None,
                }
            },
            _ => None,
        }
    } else if seg.len() == 3 {
        match (seg[0], seg[1], seg[2]) {
            (
                TokenModel::Identifier(t0),
                TokenModel::Identifier(a),
                TokenModel::Identifier(b),
            ) => if t0 == "to"@ {
                match (dir_kw(a), dir_kw(b)) {
                    (Some(d1), Some(d2)) => Some(DirectionPair { first: d1, second: Some(d2) }),
                    _ => None,
                }
            } else {
                None
            },
            _ => None,
        }
    } else {
        None
    }
}

/// Reads the direction part, per [`dir_part`].
fn dir_part_x(seg: &Vec<Token>) -> (r: Option<DirectionPair>)
    ensures
        r == dir_part(toks_model(seg@)),
{
    let ghost tm = toks_model(seg@);
    proof {
        assert(tm.len() == seg@.len());
        assert(forall|i: int| 0 <= i < seg@.len() ==> tm[i] == #[trigger] seg@[i]@);
    }
    if seg.len() == 1 {
        match &seg[0] {
            Token::Identifier(n) => match dir_kw_x(n) {
                Some(d) => Some(DirectionPair { first: d, second: None }),
                None => None,
            },
            _ => None,
        }
    } else if seg.len() == 2 {
        match (&seg[0], &seg[1]) {
            (Token::Identifier(a), Token::Identifier(b)) => {
                if str_eq(a.as_str(), "to") {
                    match dir_kw_x(b) {
                        Some(d) => Some(DirectionPair { first: d, second: None }),
                        None => None,
                    }
                } else {
                    match (dir_kw_x(a), dir_kw_x(b)) {
                        (Some(d1), Some(d2)) => Some(
                            DirectionPair { first: d1, second: Some(d2) },
                        ),
                        _ => None,
                    }
                }
            }
            _ => None,
        }
    } else if seg.len() == 3 {
        match (&seg[0], &seg[1], &seg[2]) {
            (Token::Identifier(t0), Token::Identifier(a), Token::Identifier(b)) => {
                if str_eq(t0.as_str(), "to") {
                    match (dir_kw_x(a), dir_kw_x(b)) {
                        (Some(d1), Some(d2)) => Some(
                            DirectionPair { first: d1, second: Some(d2) },
                        ),
                        _ => None,
                    }
                } else {
                    None
                }
            }
            _ => None,
        }
    } else {
        None
    }
}

/// The linear-gradient body: a direction part, then the colors.
pub open spec fn linear_spec(args: Seq<Seq<TokenModel>>) -> Option<LinearModel> {
    if args.len() >= 2 {
        match dir_part(args[0]) {
            Some(dp) => match colors_from(args, 1) {
                Some(cs) => Some(LinearModel { directions: dp, colors: cs }),
                None => None,
            },
            None => None,
        }
    } else {
        None
    }
}

pub open spec fn shape_kw(n: Seq<char>) -> Option<bool> {
    if n == "circle"@ {
        Some(false)
    } else if n == "ellipse"@ {
        Some(true)
    } else {
        None
    }
}

pub open spec fn rsize_kw(n: Seq<char>) -> Option<RadialGradientSize> {
    if n == "farthest-corner"@ {
        Some(RadialGradientSize::FarthestCorner)
    } else if n == "closest-side"@ {
        Some(RadialGradientSize::ClosestSide)
    } else if n == "closest-corner"@ {
        Some(RadialGradientSize::ClosestCorner)
    } else if n == "farthest-side"@ {
        Some(RadialGradientSize::FarthestSide)
    } else {
        None
    }
}

pub open spec fn shape_at(seg: Seq<TokenModel>, i: int) -> Option<bool> {
    if 0 <= i < seg.len() {
        match seg[i] {
            TokenModel::Identifier(n) => shape_kw(n),
            _ => None,
        }
    } else {
        None
    }
}

pub open spec fn rsize_at(seg: Seq<TokenModel>, i: int) -> Option<RadialGradientSize> {
    if 0 <= i < seg.len() {
        match seg[i] {
            TokenModel::Identifier(n) => rsize_kw(n),
            _ => None,
        }
    } else {
        None
    }
}

/// The default position: centered.
pub open spec fn default_pos() -> (PositionValueType, ScalarModel) {
    (PositionValueType::Center, whole_scalar(0))
}

/// The radial-gradient prelude: an optional shape keyword, an optional
/// size keyword, and an optional `at` position, at least one present.
pub open spec fn prelude_spec(seg: Seq<TokenModel>) -> Option<
    (bool, RadialGradientSize, (PositionValueType, ScalarModel)),
> {
    let i1: int = if shape_at(seg, 0) is Some {
        1
    } else {
        0
    };
    let el: bool = if shape_at(seg, 0) is Some {
        shape_at(seg, 0)->Some_0
    } else {
        true
    };
    let i2: int = if rsize_at(seg, i1) is Some {
        i1 + 1
    } else {
        i1
    };
    let sz: RadialGradientSize = if rsize_at(seg, i1) is Some {
        rsize_at(seg, i1)->Some_0
    } else {
        RadialGradientSize::FarthestCorner
    };
    if i2 == seg.len() {
        if i2 > 0 {
            Some((el, sz, default_pos()))
        } else {
            None
        }
    } else if seg[i2] == TokenModel::Identifier("at"@) {
        match pos_spec(seg.subrange(i2 + 1, seg.len() as int)) {
            Some(p) => Some((el, sz, p)),
            None => None,
        }
    } else {
        None
    }
}

/// Reads the radial prelude, per [`prelude_spec`].
fn prelude_x(seg: &Vec<Token>) -> (r: Option<(bool, RadialGradientSize, PositionValue)>)
    ensures
        match prelude_spec(toks_model(seg@)) {
            Some((el, sz, p)) => r is Some && (r->0).0 == el && (r->0).1 == sz && pos_model(
                (r->0).2,
            ) == p,
            None => r is None,
        },
{
    let ghost tm = toks_model(seg@);
    proof {
        assert(tm.len() == seg@.len());
        assert(forall|i: int| 0 <= i < seg@.len() ==> tm[i] == #[trigger] seg@[i]@);
    }
    let mut i: usize = 0;
    let mut el: bool = true;
    let mut sz: RadialGradientSize = RadialGradientSize::FarthestCorner;
    if seg.len() > 0 {
        match &seg[0] {
            Token::Identifier(n) => {
                if str_eq(n.as_str(), "circle") {
                    el = false;
                    i = 1;
                } else if str_eq(n.as_str(), "ellipse") {
                    el = true;
                    i = 1;
                }
            }
            _ => {}
        }
    }
    proof {
        assert(i == 1 <==> shape_at(tm, 0) is Some);
        assert(shape_at(tm, 0) is Some ==> el == shape_at(tm, 0)->Some_0);
    }
    if i < seg.len() {
        match &seg[i] {
            Token::Identifier(n) => {
                match {
                    if str_eq(n.as_str(), "farthest-corner") {
                        Some(RadialGradientSize::FarthestCorner)
                    } else if str_eq(n.as_str(), "closest-side") {
                        Some(RadialGradientSize::ClosestSide)
                    } else if str_eq(n.as_str(), "closest-corner") {
                        Some(RadialGradientSize::ClosestCorner)
                    } else if str_eq(n.as_str(), "farthest-side") {
                        Some(RadialGradientSize::FarthestSide)
                    } else {
                        None
                    }
                } {
                    Some(k) => {
                        sz = k;
                        i = i + 1;
                    }
                    None => {}
                }
            }
            _ => {}
        }
    }
    if i == seg.len() {
        if i > 0 {
            Some(
                (
                    el,
                    sz,
                    PositionValue { kind: PositionValueType::Center, amount: Scalar::integer(0) },
                ),
            )
        } else {
            None
        }
    } else if kw_eq(&seg[i], "at") {
        let rest = subtokens(seg, i + 1, seg.len());
        match pos_x(&rest) {
            Some(p) => Some((el, sz, p)),
            None => None,
        }
    } else {
        None
    }
}

/// The radial-gradient body: an optional prelude argument, then the
/// colors.
pub open spec fn radial_spec(args: Seq<Seq<TokenModel>>, repeats: bool) -> Option<RadialModel> {
    if args.len() == 0 {
        None
    } else {
        match prelude_spec(args[0]) {
            Some((el, sz, p)) => if args.len() >= 2 {
                match colors_from(args, 1) {
                    Some(cs) => Some(
                        RadialModel {
                            elipsis: el,
                            repeats,
                            position: p,
                            size: sz,
                            colors: cs,
                        },
                    ),
                    None => None,
                }
            } else {
                None
            },
            None => match colors_from(args, 0) {
                Some(cs) => Some(
                    RadialModel {
                        elipsis: true,
                        repeats,
                        position: default_pos(),
                        size: RadialGradientSize::FarthestCorner,
                        colors: cs,
                    },
                ),
                None => None,
            },
        }
    }
}

/// One conic color stop: a color, optionally followed by an angle.
pub open spec fn stop_spec(seg: Seq<TokenModel>) -> Option<ConicValueModel> {
    if seg.len() >= 2 && scalar_spec(seg.last()) is Some {
        match color_spec(seg.drop_last()) {
            Some(BgColorModel::Color(c)) => Some(
                ConicValueModel {
                    from_angle: Some(scalar_spec(seg.last())->Some_0),
                    at_position: None,
                    color: c,
                },
            ),
            _ => None,
        }
    } else {
        match color_spec(seg) {
            Some(BgColorModel::Color(c)) => Some(
                ConicValueModel { from_angle: None, at_position: None, color: c },
            ),
            _ => None,
        }
    }
}

/// Reads one conic stop, per [`stop_spec`].
fn stop_x(seg: &Vec<Token>) -> (r: Option<ConicGradientValue>)
    ensures
        match stop_spec(toks_model(seg@)) {
            Some(v) => r is Some && r->0@ == v,
            None => r is None,
        },
{
    let ghost tm = toks_model(seg@);
    proof {
        assert(tm.len() == seg@.len());
        if seg@.len() > 0 {
            assert(tm.last() == seg@[seg@.len() - 1]@);
        }
    }
    if seg.len() >= 2 {
        match scalar_of(&seg[seg.len() - 1]) {
            Some(a) => {
                let head = subtokens(seg, 0, seg.len() - 1);
                proof {
                    assert(toks_model(head@) =~= tm.drop_last());
                }
                match color_x(&head) {
                    Some(BackgroundColor::Color(c)) => {
                        return Some(
                            ConicGradientValue {
                                from_angle: Some(a),
                                at_position: None,
                                color: c,
                            },
                        );
                    }
                    _ => {
                        return None;
                    }
                }
            }
            None => {}
        }
    }
    match color_x(seg) {
        Some(BackgroundColor::Color(c)) => Some(
            ConicGradientValue { from_angle: None, at_position: None, color: c },
        ),
        _ => None,
    }
}

/// The conic stops: every argument from `i` on must be a stop.
pub open spec fn stops_from(args: Seq<Seq<TokenModel>>, i: int) -> Option<Seq<ConicValueModel>>
    decreases args.len() - i,
{
    if i < 0 || i >= args.len() {
        Some(Seq::empty())
    } else {
        match stop_spec(args[i]) {
            Some(v) => match stops_from(args, i + 1) {
                Some(rest) => Some(seq![v] + rest),
                None => None,
            },
            None => None,
        }
    }
}

/// Reads the conic stops from argument `from` on, per [`stops_from`].
fn stops_x(args: &Vec<Vec<Token>>, from: usize) -> (r: Option<Vec<ConicGradientValue>>)
    requires
        from <= args@.len(),
    ensures
        match stops_from(args_model(args@), from as int) {
            Some(vs) => r is Some && r->0@.map_values(|v: ConicGradientValue| v@) == vs,
            None => r is None,
        },
{
    let ghost am = args_model(args@);
    let mut out: Vec<ConicGradientValue> = Vec::new();
    let mut j: usize = from;
    proof {
        assert(out@.map_values(|v: ConicGradientValue| v@) =~= Seq::<ConicValueModel>::empty());
        assert(Seq::<ConicValueModel>::empty() + stops_from(am, from as int)->Some_0
            =~= stops_from(am, from as int)->Some_0);
    }
    while j < args.len()
        invariant
            from <= j <= args@.len(),
            am == args_model(args@),
            stops_from(am, from as int) is Some <==> stops_from(am, j as int) is Some,
            stops_from(am, from as int) is Some ==> stops_from(am, from as int)->Some_0 == out@
                .map_values(|v: ConicGradientValue| v@) + stops_from(am, j as int)->Some_0,
        decreases args@.len() - j,
    {
        proof {
            assert(am[j as int] == toks_model(args@[j as int]@));
        }
        let ghost out_pre = out@.map_values(|v: ConicGradientValue| v@);
        match stop_x(&args[j]) {
            Some(v) => {
                let ghost vm = v@;
                out.push(v);
                proof {
                    assert(out@.map_values(|v: ConicGradientValue| v@) =~= out_pre.push(vm));
                    if stops_from(am, j as int) is Some {
                        assert(out_pre.push(vm) + stops_from(am, j + 1)->Some_0 =~= out_pre + (seq![
                            vm,
                        ] + stops_from(am, j + 1)->Some_0));
                    }
                }
            }
            None => {
                return None;
            }
        }
        j += 1;
    }
    Some(out)
}

/// The conic-gradient body: its stops.
pub open spec fn conic_spec(args: Seq<Seq<TokenModel>>, repeats: bool) -> Option<ConicModel> {
    if args.len() == 0 {
        None
    } else {
        match stops_from(args, 0) {
            Some(vs) => Some(ConicModel { repeats, values: vs }),
            None => None,
        }
    }
}

/// The image grammar: `none`, `url(...)`, or one of the gradient kinds.
pub open spec fn image_spec(t: Seq<TokenModel>) -> Option<ImageModel> {
    if t.len() == 1 && t[0] == TokenModel::Identifier("none"@) {
        Some(ImageModel::NoImage)
    } else if t.len() == 4 && t[0] == TokenModel::Identifier("url"@) && t[1] is OpenB && t[3]
        is CloseB {
        match t[2] {
            TokenModel::StrLit(s) => Some(ImageModel::Url(s)),
            TokenModel::Identifier(s) => Some(ImageModel::Url(s)),
            _ => None,
        }
    } else if t.len() >= 3 && t[1] is OpenB && t.last() is CloseB {
        let inner = split_args(t.subrange(2, t.len() - 1));
        match t[0] {
            TokenModel::Identifier(n) => if n == "linear-gradient"@ {
                match linear_spec(inner) {
                    Some(g) => Some(ImageModel::Linear(g)),
                    None => None,
                }
            } else if n == "radial-gradient"@ {
                match radial_spec(inner, false) {
                    Some(g) => Some(ImageModel::Radial(g)),
                    None => None,
                }
            } else if n == "repeating-radial-gradient"@ {
                match radial_spec(inner, true) {
                    Some(g) => Some(ImageModel::Radial(g)),
                    None => None,
                }
            } else if n == "conic-gradient"@ {
                match conic_spec(inner, false) {
                    Some(g) => Some(ImageModel::Conic(g)),
                    None => None,
                }
            } else if n == "repeating-conic-gradient"@ {
                match conic_spec(inner, true) {
                    Some(g) => Some(ImageModel::Conic(g)),
                    None => None,
                }
            } else {
                None
            },
            _ => None,
        }
    } else {
        None
    }
}

/// Reads an image value per [`image_spec`].
fn image_x(toks: &Vec<Token>) -> (r: Option<BackgroundImage>)
    ensures
        match image_spec(toks_model(toks@)) {
            Some(i) => r is Some && r->0@ == i,
            None => r is None,
        },
{
    let ghost tm = toks_model(toks@);
    proof {
        assert(tm.len() == toks@.len());
        assert(forall|i: int| 0 <= i < toks@.len() ==> tm[i] == #[trigger] toks@[i]@);
        if toks@.len() > 0 {
            assert(tm.last() == tm[tm.len() - 1]);
        }
    }
    if toks.len() == 1 && kw_eq(&toks[0], "none") {
        return Some(BackgroundImage::NoImage);
    }
    if toks.len() == 4 && kw_eq(&toks[0], "url") && toks[1].obracket() && toks[3].cbracket() {
        match &toks[2] {
            Token::Literal(crate::lex::Literal::Str(s)) => {
                return Some(BackgroundImage::Url(s.clone()));
            }
            Token::Identifier(s) => {
                return Some(BackgroundImage::Url(s.clone()));
            }
            _ => {
                return None;
            }
        }
    }
    if toks.len() >= 3 && toks[1].obracket() && toks[toks.len() - 1].cbracket() {
        let args = split_args_x(toks, 2, toks.len() - 1);
        let ghost inner = split_args(tm.subrange(2, tm.len() - 1));
        proof {
            assert(args_model(args@) == inner);
        }
        match &toks[0] {
            Token::Identifier(n) => {
                if str_eq(n.as_str(), "linear-gradient") {
                    if args.len() >= 2 {
                        match dir_part_x(&args[0]) {
                            Some(dp) => {
                                proof {
                                    assert(args_model(args@)[0] == toks_model(args@[0]@));
                                }
                                match colors_x(&args, 1) {
                                    Some(cs) => {
                                        return Some(
                                            BackgroundImage::LinearGradient(
                                                LinearGradient { directions: dp, colors: cs },
                                            ),
                                        );
                                    }
                                    None => {
                                        return None;
                                    }
                                }
                            }
                            None => {
                                return None;
                            }
                        }
                    } else {
                        return None;
                    }
                } else if str_eq(n.as_str(), "radial-gradient") {
                    return radial_x(&args, false);
                } else if str_eq(n.as_str(), "repeating-radial-gradient") {
                    return radial_x(&args, true);
                } else if str_eq(n.as_str(), "conic-gradient") {
                    return conic_x(&args, false);
                } else if str_eq(n.as_str(), "repeating-conic-gradient") {
                    return conic_x(&args, true);
                } else {
                    return None;
                }
            }
            _ => {
                return None;
            }
        }
    }
    None
}

/// Reads a radial-gradient body per [`radial_spec`].
fn radial_x(args: &Vec<Vec<Token>>, repeats: bool) -> (r: Option<BackgroundImage>)
    ensures
        match radial_spec(args_model(args@), repeats) {
            Some(g) => r is Some && r->0@ == ImageModel::Radial(g),
            None => r is None,
        },
{
    let ghost am = args_model(args@);
    if args.len() == 0 {
        return None;
    }
    proof {
        assert(am[0] == toks_model(args@[0]@));
    }
    match prelude_x(&args[0]) {
        Some((el, sz, p)) => {
            if args.len() >= 2 {
                match colors_x(args, 1) {
                    Some(cs) => Some(
                        BackgroundImage::RadialGradient(
                            RadialGradient {
                                elipsis: el,
                                repeats,
                                position: p,
                                size: sz,
                                colors: cs,
                            },
                        ),
                    ),
                    None => None,
                }
            } else {
                None
            }
        }
        None => {
            match colors_x(args, 0) {
                Some(cs) => Some(
                    BackgroundImage::RadialGradient(
                        RadialGradient {
                            elipsis: true,
                            repeats,
                            position: PositionValue {
                                kind: PositionValueType::Center,
                                amount: Scalar::integer(0),
                            },
                            size: RadialGradientSize::FarthestCorner,
                            colors: cs,
                        },
                    ),
                ),
                None => None,
            }
        }
    }
}

/// Reads a conic-gradient body per [`conic_spec`].
fn conic_x(args: &Vec<Vec<Token>>, repeats: bool) -> (r: Option<BackgroundImage>)
    ensures
        match conic_spec(args_model(args@), repeats) {
            Some(g) => r is Some && r->0@ == ImageModel::Conic(g),
            None => r is None,
        },
{
    if args.len() == 0 {
        return None;
    }
    match stops_x(args, 0) {
        Some(vs) => Some(BackgroundImage::ConicGradient(ConicGradient { repeats, values: vs })),
        None => None,
    }
}

/// Reads a `background-image` value per [`image_spec`].
pub fn image(toks: &Vec<Token>) -> (r: Result<BackgroundValue, Error>)
    ensures
        match image_spec(toks_model(toks@)) {
            Some(i) => r is Ok && r->Ok_0@ == BgValueModel::Image(i),
            None => r is Err && r->Err_0 == Error::InvalidValue,
        },
{
    match image_x(toks) {
        Some(i) => Ok(BackgroundValue::Image(i)),
        None => Err(Error::InvalidValue),
    }
}

/// Index just past the bracket group whose scan stands at `j` with
/// `depth` brackets open; past the end when the group never closes.
pub open spec fn group_end(t: Seq<TokenModel>, j: int, depth: int) -> int
    decreases t.len() - j,
{
    if j < 0 || j >= t.len() {
        t.len() + 1int
    } else if t[j] is OpenB {
        group_end(t, j + 1, depth + 1)
    } else if t[j] is CloseB {
        if depth <= 1 {
            j + 1
        } else {
            group_end(t, j + 1, depth - 1)
        }
    } else {
        group_end(t, j + 1, depth)
    }
}

/// `group_end` never steps backwards.
pub proof fn lemma_group_end_bounds(t: Seq<TokenModel>, j: int, depth: int)
    requires
        j <= t.len(),
    ensures
        group_end(t, j, depth) > j,
    decreases t.len() - j,
{
    if 0 <= j < t.len() {
        if t[j] is OpenB {
            lemma_group_end_bounds(t, j + 1, depth + 1);
        } else if t[j] is CloseB {
            if depth > 1 {
                lemma_group_end_bounds(t, j + 1, depth - 1);
            }
        } else {
            lemma_group_end_bounds(t, j + 1, depth);
        }
    }
}

/// One position item starting at `i`: a position keyword, or a number
/// with its unit or percent sign; yields the value and the index just
/// past it.
pub open spec fn pos_item(t: Seq<TokenModel>, i: int) -> Option<
    ((PositionValueType, ScalarModel), int),
> {
    if 0 <= i < t.len() {
        match t[i] {
            TokenModel::Identifier(n) => match pos_kw(n) {
                Some(k) => Some(((k, whole_scalar(0)), i + 1)),
                None => None,
            },
            _ => if scalar_spec(t[i]) is Some && i + 1 < t.len() {
                match t[i + 1] {
                    TokenModel::Identifier(n) => match unit_kw(n) {
                        Some(k) => Some(((k, scalar_spec(t[i])->Some_0), i + 2)),
                        None => None,
                    },
                    TokenModel::Other(p) => if p == "%"@ {
                        Some(((PositionValueType::Percentage, scalar_spec(t[i])->Some_0), i + 2))
                    } else {
                        None
                    },
                    _ => None,
                }
            } else {
                None
            },
        }
    } else {
        None
    }
}

/// Classifies one positional group at `i` and yields the updated
/// aggregate, the index just past the group, and the box-keyword flag.
/// Each group is recognized by its own sub-grammar: a bracketed function
/// is an image, else a color; a bare identifier is looked up in the
/// keyword tables (attachment, blend mode, box, repeat, `none`, the size
/// keywords, the position keywords, in that order) and only an unmatched
/// identifier falls through to a color name; a number opens a position.
/// Later groups of a kind overwrite earlier ones, images accumulate, the
/// first box keyword sets origin and clip together and a second narrows
/// the clip, and a lone position coordinate centers the other. A group
/// fitting no sub-grammar fails the run.
pub open spec fn shorthand_step(
    t: Seq<TokenModel>,
    i: int,
    acc: BackgroundModel,
    box_seen: bool,
) -> Option<(BackgroundModel, int, bool)> {
    if !(0 <= i < t.len()) {
        None
    } else {
        match t[i] {
            TokenModel::Identifier(n) => {
                if i + 1 < t.len() && t[i + 1] is OpenB {
                    let e = group_end(t, i + 2, 1);
                    if e <= t.len() {
                        let g = t.subrange(i, e);
                        match image_spec(g) {
                            Some(img) => Some(
                                (BackgroundModel { image: acc.image.push(img), ..acc }, e, box_seen),
                            ),
                            None => match color_spec(g) {
                                Some(BgColorModel::Color(c)) => Some(
                                    (
                                        BackgroundModel { color: BgColorModel::Color(c), ..acc },
                                        e,
                                        box_seen,
                                    ),
                                ),
                                _ => None,
                            },
                        }
                    } else {
                        None
                    }
                } else if attachment_kw(n) is Some {
                    Some(
                        (
                            BackgroundModel { attachment: attachment_kw(n)->Some_0, ..acc },
                            i + 1,
                            box_seen,
                        ),
                    )
                } else if blend_kw(n) is Some {
                    Some(
                        (
                            BackgroundModel { blend_mode: blend_kw(n)->Some_0, ..acc },
                            i + 1,
                            box_seen,
                        ),
                    )
                } else if clip_kw(n) is Some {
                    if box_seen {
                        Some((BackgroundModel { clip: clip_kw(n)->Some_0, ..acc }, i + 1, true))
                    } else {
                        Some(
                            (
                                BackgroundModel {
                                    clip: clip_kw(n)->Some_0,
                                    origin: origin_kw(n)->Some_0,
                                    ..acc
                                },
                                i + 1,
                                true,
                            ),
                        )
                    }
                } else if repeat_kw(n) is Some {
                    Some(
                        (BackgroundModel { repeat: repeat_kw(n)->Some_0, ..acc }, i + 1, box_seen),
                    )
                } else if n == "none"@ {
                    Some(
                        (
                            BackgroundModel { image: acc.image.push(ImageModel::NoImage), ..acc },
                            i + 1,
                            box_seen,
                        ),
                    )
                } else if n == "auto"@ {
                    Some((BackgroundModel { size: SizeModel::Auto, ..acc }, i + 1, box_seen))
                } else if n == "cover"@ {
                    Some((BackgroundModel { size: SizeModel::Cover, ..acc }, i + 1, box_seen))
                } else if n == "contain"@ {
                    Some((BackgroundModel { size: SizeModel::Contain, ..acc }, i + 1, box_seen))
                } else if pos_kw(n) is Some {
                    let x = (pos_kw(n)->Some_0, whole_scalar(0));
                    match pos_item(t, i + 1) {
                        Some((y, k)) => Some(
                            (BackgroundModel { position: (x, y), ..acc }, k, box_seen),
                        ),
                        None => Some(
                            (
                                BackgroundModel { position: (x, default_pos()), ..acc },
                                i + 1,
                                box_seen,
                            ),
                        ),
                    }
                } else {
                    Some((BackgroundModel { color: named_color(n), ..acc }, i + 1, box_seen))
                }
            },
            _ => match pos_item(t, i) {
                Some((x, j)) => match pos_item(t, j) {
                    Some((y, k)) => Some(
                        (BackgroundModel { position: (x, y), ..acc }, k, box_seen),
                    ),
                    None => Some(
                        (BackgroundModel { position: (x, default_pos()), ..acc }, j, box_seen),
                    ),
                },
                None => None,
            },
        }
    }
}

/// A step always moves forward and stays within the run.
pub proof fn lemma_shorthand_step_advances(
    t: Seq<TokenModel>,
    i: int,
    acc: BackgroundModel,
    box_seen: bool,
)
    requires
        0 <= i < t.len(),
    ensures
        match shorthand_step(t, i, acc, box_seen) {
            Some((a2, j, b2)) => i < j <= t.len(),
            None => true,
        },
{
    if i + 2 <= t.len() {
        lemma_group_end_bounds(t, i + 2, 1);
    }
}

/// Fills the shorthand aggregate from the token run at `i` on, one
/// group at a time (see [`shorthand_step`]).
pub open spec fn shorthand_from(
    t: Seq<TokenModel>,
    i: int,
    acc: BackgroundModel,
    box_seen: bool,
) -> Option<BackgroundModel>
    decreases t.len() - i,
        via shorthand_from_dec
{
    if i >= t.len() {
        Some(acc)
    } else if i < 0 {
        None
    } else {
        match shorthand_step(t, i, acc, box_seen) {
            Some((a2, j, b2)) => shorthand_from(t, j, a2, b2),
            None => None,
        }
    }
}

#[via_fn]
proof fn shorthand_from_dec(t: Seq<TokenModel>, i: int, acc: BackgroundModel, box_seen: bool) {
    if 0 <= i < t.len() {
        lemma_shorthand_step_advances(t, i, acc, box_seen);
    }
}

/// The shorthand grammar: a nonempty run of positional sub-values
/// filling the family's aggregate, per [`shorthand_from`].
pub open spec fn root_spec(t: Seq<TokenModel>) -> Option<BgValueModel> {
    if t.len() == 0 {
        None
    } else {
        match shorthand_from(t, 0, initial_background(), false) {
            Some(b) => Some(BgValueModel::Shorthand(b)),
            None => None,
        }
    }
}

/// Runs [`group_end`] over the tokens; `None` when the group never
/// closes.
fn group_end_x(toks: &Vec<Token>, j: usize, depth: usize) -> (r: Option<usize>)
    requires
        1 <= depth <= j <= toks@.len(),
    ensures
        match r {
            Some(e) => e == group_end(toks_model(toks@), j as int, depth as int) && j < e
                <= toks@.len(),
            None => group_end(toks_model(toks@), j as int, depth as int) > toks@.len(),
        },
    decreases toks@.len() - j,
{
    let ghost tm = toks_model(toks@);
    proof {
        assert(tm.len() == toks@.len());
        if j < toks@.len() {
            assert(tm[j as int] == toks@[j as int]@);
        }
        lemma_group_end_bounds(tm, j as int, depth as int);
    }
    if j >= toks.len() {
        return None;
    }
    if toks[j].obracket() {
        group_end_x(toks, j + 1, depth + 1)
    } else if toks[j].cbracket() {
        if depth <= 1 {
            Some(j + 1)
        } else {
            group_end_x(toks, j + 1, depth - 1)
        }
    } else {
        group_end_x(toks, j + 1, depth)
    }
}

/// Reads one position item, per [`pos_item`].
fn pos_item_x(toks: &Vec<Token>, i: usize) -> (r: Option<(PositionValue, usize)>)
    requires
        i <= toks@.len(),
    ensures
        match pos_item(toks_model(toks@), i as int) {
            Some((pm, j)) => r is Some && pos_model((r->0).0) == pm && (r->0).1 == j && j > i,
            None => r is None,
        },
{
    let ghost tm = toks_model(toks@);
    proof {
        assert(tm.len() == toks@.len());
        assert(forall|k: int| 0 <= k < toks@.len() ==> tm[k] == #[trigger] toks@[k]@);
    }
    if i >= toks.len() {
        return None;
    }
    match &toks[i] {
        Token::Identifier(n) => match pos_kw_x(n) {
            Some(k) => Some(
                (PositionValue { kind: k, amount: Scalar::integer(0) }, i + 1),
            ),
            None => None,
        },
        _ => {
            match scalar_of(&toks[i]) {
                Some(sc) => {
                    if i + 1 < toks.len() {
                        match &toks[i + 1] {
                            Token::Identifier(n) => match unit_kw_x(n) {
                                Some(k) => Some(
                                    (PositionValue { kind: k, amount: sc }, i + 2),
                                ),
                                None => None,
                            },
                            Token::Other(p) => {
                                if str_eq(p.as_str(), "%") {
                                    Some(
                                        (
                                            PositionValue {
                                                kind: PositionValueType::Percentage,
                                                amount: sc,
                                            },
                                            i + 2,
                                        ),
                                    )
                                } else {
                                    None
                                }
                            }
                            _ => None,
                        }
                    } else {
                        None
                    }
                }
                None => None,
            }
        }
    }
}

/// The keyword part of a classification step: the group at `i` is the
/// bare identifier `n`.
#[verifier::rlimit(100)]
#[verifier::spinoff_prover]
fn step_keyword_x(toks: &Vec<Token>, i: usize, n: &String, acc: Background, box_seen: bool) -> (r:
    Option<(Background, usize, bool)>)
    requires
        i < toks@.len(),
        toks_model(toks@)[i as int] == TokenModel::Identifier(n@),
        !(i + 1 < toks@.len() && toks_model(toks@)[i + 1] is OpenB),
    ensures
        match shorthand_step(toks_model(toks@), i as int, acc@, box_seen) {
            Some((a2, j, b2)) => r is Some && (r->0).0@ == a2 && (r->0).1 == j && (r->0).2 == b2
                && i < j <= toks@.len(),
            None => r is None,
        },
{
    let ghost tm = toks_model(toks@);
    let n_toks = toks.len();
    proof {
        assert(tm.len() == toks@.len());
        assert(i < n_toks);
        assert(forall|k: int| 0 <= k < toks@.len() ==> tm[k] == #[trigger] toks@[k]@);
    }
    if let Some(a) = attachment_kw_x(n) {
        Some((Background { attachment: a, ..acc }, i + 1, box_seen))
    } else if let Some(bm) = blend_kw_x(n) {
        Some((Background { blend_mode: bm, ..acc }, i + 1, box_seen))
    } else if let Some(cl) = clip_kw_x(n) {
        if box_seen {
            Some((Background { clip: cl, ..acc }, i + 1, true))
        } else {
            match origin_kw_x(n) {
                Some(og) => Some((Background { clip: cl, origin: og, ..acc }, i + 1, true)),
                None => None,
            }
        }
    } else if let Some(rp) = repeat_kw_x(n) {
        Some((Background { repeat: rp, ..acc }, i + 1, box_seen))
    } else if str_eq(n.as_str(), "none") {
        let mut acc2 = acc;
        acc2.image.push(BackgroundImage::NoImage);
        proof {
            assert(acc2@.image =~= acc@.image.push(ImageModel::NoImage));
        }
        Some((acc2, i + 1, box_seen))
    } else if str_eq(n.as_str(), "auto") {
        Some((Background { size: BackgroundSize::Auto, ..acc }, i + 1, box_seen))
    } else if str_eq(n.as_str(), "cover") {
        Some((Background { size: BackgroundSize::Cover, ..acc }, i + 1, box_seen))
    } else if str_eq(n.as_str(), "contain") {
        Some((Background { size: BackgroundSize::Contain, ..acc }, i + 1, box_seen))
    } else if let Some(k) = pos_kw_x(n) {
        let x = PositionValue { kind: k, amount: Scalar::integer(0) };
        match pos_item_x(toks, i + 1) {
            Some((y, next)) => Some(
                (Background { position: BackgroundPosition { x, y }, ..acc }, next, box_seen),
            ),
            None => Some(
                (
                    Background {
                        position: BackgroundPosition {
                            x,
                            y: PositionValue {
                                kind: PositionValueType::Center,
                                amount: Scalar::integer(0),
                            },
                        },
                        ..acc
                    },
                    i + 1,
                    box_seen,
                ),
            ),
        }
    } else {
        let c = {
            if str_eq(n.as_str(), "transparent") {
                BackgroundColor::Color(Color::Transparent)
            } else if str_eq(n.as_str(), "currentcolor") {
                BackgroundColor::CurrentColor
            } else {
                BackgroundColor::Color(Color::Name(n.clone()))
            }
        };
        Some((Background { color: c, ..acc }, i + 1, box_seen))
    }
}

/// Performs one classification step, per [`shorthand_step`].
#[verifier::rlimit(100)]
#[verifier::spinoff_prover]
fn shorthand_step_x(toks: &Vec<Token>, i: usize, acc: Background, box_seen: bool) -> (r: Option<
    (Background, usize, bool),
>)
    requires
        i < toks@.len(),
    ensures
        match shorthand_step(toks_model(toks@), i as int, acc@, box_seen) {
            Some((a2, j, b2)) => r is Some && (r->0).0@ == a2 && (r->0).1 == j && (r->0).2 == b2
                && i < j <= toks@.len(),
            None => r is None,
        },
{
    let ghost tm = toks_model(toks@);
    let n_toks = toks.len();
    proof {
        assert(tm.len() == toks@.len());
        assert(forall|k: int| 0 <= k < toks@.len() ==> tm[k] == #[trigger] toks@[k]@);
    }
    match &toks[i] {
        Token::Identifier(n) => {
            if i + 1 < n_toks && toks[i + 1].obracket() {
                match group_end_x(toks, i + 2, 1) {
                    Some(e) => {
                        let g = subtokens(toks, i, e);
                        proof {
                            assert(toks_model(g@) =~= tm.subrange(i as int, e as int));
                        }
                        match image_x(&g) {
                            Some(img) => {
                                let ghost im = img@;
                                let mut acc2 = acc;
                                acc2.image.push(img);
                                proof {
                                    assert(acc2@.image =~= acc@.image.push(im));
                                }
                                Some((acc2, e, box_seen))
                            }
                            None => match color_x(&g) {
                                Some(BackgroundColor::Color(c)) => Some(
                                    (
                                        Background { color: BackgroundColor::Color(c), ..acc },
                                        e,
                                        box_seen,
                                    ),
                                ),
                                _ => None,
                            },
                        }
                    }
                    None => None,
                }
            } else {
                step_keyword_x(toks, i, n, acc, box_seen)
            }
        }
        _ => {
            match pos_item_x(toks, i) {
                Some((x, j)) => {
                    match pos_item_x(toks, j) {
                        Some((y, k)) => Some(
                            (
                                Background { position: BackgroundPosition { x, y }, ..acc },
                                k,
                                box_seen,
                            ),
                        ),
                        None => Some(
                            (
                                Background {
                                    position: BackgroundPosition {
                                        x,
                                        y: PositionValue {
                                            kind: PositionValueType::Center,
                                            amount: Scalar::integer(0),
                                        },
                                    },
                                    ..acc
                                },
                                j,
                                box_seen,
                            ),
                        ),
                    }
                }
                None => None,
            }
        }
    }
}

/// Fills the shorthand aggregate, per [`shorthand_from`].
#[verifier::loop_isolation(false)]
fn shorthand_x(toks: &Vec<Token>, start: usize, acc: Background, box_seen: bool) -> (r: Option<
    Background,
>)
    requires
        start <= toks@.len(),
    ensures
        match shorthand_from(toks_model(toks@), start as int, acc@, box_seen) {
            Some(b) => r is Some && r->0@ == b,
            None => r is None,
        },
{
    let ghost tm = toks_model(toks@);
    let ghost target = shorthand_from(tm, start as int, acc@, box_seen);
    let mut cur = acc;
    let mut i = start;
    let mut bs = box_seen;
    proof {
        assert(tm.len() == toks@.len());
    }
    while i < toks.len()
        invariant
            i <= toks@.len(),
            tm == toks_model(toks@),
            tm.len() == toks@.len(),
            target == shorthand_from(tm, i as int, cur@, bs),
        decreases toks@.len() - i,
    {
        let ghost pre = cur@;
        let ghost pre_i = i as int;
        let ghost pre_bs = bs;
        match shorthand_step_x(toks, i, cur, bs) {
            Some((a2, j, b2)) => {
                proof {
                    assert(shorthand_from(tm, pre_i, pre, pre_bs) == shorthand_from(
                        tm,
                        j as int,
                        a2@,
                        b2,
                    ));
                }
                cur = a2;
                i = j;
                bs = b2;
            }
            None => {
                proof {
                    assert(shorthand_from(tm, pre_i, pre, pre_bs) is None);
                }
                return None;
            }
        }
    }
    proof {
        assert(shorthand_from(tm, i as int, cur@, bs) == Some(cur@));
    }
    Some(cur)
}

/// Reads a shorthand `background` value per [`root_spec`]: a nonempty
/// positional run of sub-values filling the family's aggregate.
///
/// The run is positional at the token level. Callers that hand tokens in
/// directly (the token parser, the preprocessor) can put any sub-values
/// side by side; in lexed source text, adjacent bare words merge under
/// the whitespace rule, so there the groups of a run separate at
/// brackets and quoted literals.
pub fn root(toks: &Vec<Token>) -> (r: Result<BackgroundValue, Error>)
    ensures
        match root_spec(toks_model(toks@)) {
            Some(v) => r is Ok && r->Ok_0@ == v,
            None => r is Err && r->Err_0 == Error::InvalidValue,
        },
{
    if toks.len() == 0 {
        return Err(Error::InvalidValue);
    }
    match shorthand_x(toks, 0, Background::initial(), false) {
        Some(b) => Ok(BackgroundValue::Shorthand(b)),
        None => Err(Error::InvalidValue),
    }
}

/// The background family's value grammar, dispatched on the sub-property.
pub open spec fn bg_value_spec(p: Option<BackgroundProperty>, t: Seq<TokenModel>) -> Option<
    BgValueModel,
> {
    match p {
        None => root_spec(t),
        Some(BackgroundProperty::Color) => match color_spec(t) {
            Some(c) => Some(BgValueModel::Color(c)),
            None => None,
        },
        Some(BackgroundProperty::Image) => match image_spec(t) {
            Some(i) => Some(BgValueModel::Image(i)),
            None => None,
        },
        Some(BackgroundProperty::Attachment) => match attachment_spec(t) {
            Some(a) => Some(BgValueModel::Attachment(a)),
            None => None,
        },
        Some(BackgroundProperty::BlendMode) => match blend_spec(t) {
            Some(b) => Some(BgValueModel::BlendMode(b)),
            None => None,
        },
        Some(BackgroundProperty::Clip) => match clip_spec(t) {
            Some(c) => Some(BgValueModel::Clip(c)),
            None => None,
        },
        Some(BackgroundProperty::Origin) => match origin_spec(t) {
            Some(o) => Some(BgValueModel::Origin(o)),
            None => None,
        },
        Some(BackgroundProperty::Repeat) => match repeat_spec(t) {
            Some(x) => Some(BgValueModel::Repeat(x)),
            None => None,
        },
        Some(BackgroundProperty::Size) => match size_spec(t) {
            Some(sm) => Some(BgValueModel::Size(sm)),
            None => None,
        },
    }
}

/// Reads the value of a background property, dispatching per
/// [`bg_value_spec`]; a rejected token run is the `InvalidValue` error.
pub fn parse(property: &Option<BackgroundProperty>, toks: &Vec<Token>) -> (r: Result<
    BackgroundValue,
    Error,
>)
    ensures
        match bg_value_spec(*property, toks_model(toks@)) {
            Some(v) => r is Ok && r->Ok_0@ == v,
            None => r is Err && r->Err_0 == Error::InvalidValue,
        },
{
    match property {
        None => root(toks),
        Some(BackgroundProperty::Color) => color(toks),
        Some(BackgroundProperty::Image) => image(toks),
        Some(BackgroundProperty::Attachment) => attachment(toks),
        Some(BackgroundProperty::BlendMode) => blend_mode(toks),
        Some(BackgroundProperty::Clip) => clip(toks),
        Some(BackgroundProperty::Origin) => origin(toks),
        Some(BackgroundProperty::Repeat) => repeat(toks),
        Some(BackgroundProperty::Size) => size(toks),
    }
}


// ---------------------------------------------------------------------
// Reading numeric components from bare text.
// ---------------------------------------------------------------------

/// Whether every character of `s` is a decimal digit (an executable
/// check for [`all_digits`]).
fn digits_check(s: &Vec<char>, from: usize, to: usize) -> (r: bool)
    requires
        from <= to <= s@.len(),
    ensures
        r == all_digits(s@.subrange(from as int, to as int)),
{
    let ghost seg = s@.subrange(from as int, to as int);
    let mut i: usize = from;
    while i < to
        invariant
            from <= i <= to <= s@.len(),
            seg == s@.subrange(from as int, to as int),
            forall|j: int| 0 <= j < i - from ==> '0' <= #[trigger] seg[j] <= '9',
        decreases to - i,
    {
        let c = s[i];
        proof {
            assert(seg[i - from] == s@[i as int]);
        }
        if c < '0' || c > '9' {
            return false;
        }
        i += 1;
    }
    true
}

/// The scalar a piece of bare text spells: digits, with at most one dot.
pub open spec fn scalar_text(s: Seq<char>) -> Option<ScalarModel> {
    let d = dot_idx(s);
    if s.len() == 0 {
        None
    } else if d == s.len() {
        if all_digits(s) {
            Some(ScalarModel { whole: dec_val_sat(s), frac: Seq::empty() })
        } else {
            None
        }
    } else {
        let w = s.take(d);
        let f = s.subrange(d + 1, s.len() as int);
        if all_digits(w) && all_digits(f) && w.len() + f.len() > 0 {
            Some(ScalarModel { whole: dec_val_sat(w), frac: f })
        } else {
            None
        }
    }
}

/// Reads a scalar from bare text, per [`scalar_text`].
fn scalar_from_text(s: &str) -> (r: Option<Scalar>)
    ensures
        match scalar_text(s@) {
            Some(sm) => r is Some && r->0@ == sm,
            None => r is None,
        },
{
    let chars = chars_vec(s);
    if chars.len() == 0 {
        return None;
    }
    let mut d: usize = 0;
    while d < chars.len() && chars[d] != '.'
        invariant
            0 <= d <= chars@.len(),
            chars@ == s@,
            forall|j: int| 0 <= j < d ==> chars@[j] != '.',
        decreases chars@.len() - d,
    {
        d += 1;
    }
    proof {
        lemma_dot_idx_bounds(chars@);
        if dot_idx(chars@) < d {
            assert(chars@[dot_idx(chars@)] == '.');
        }
        if d < chars@.len() && dot_idx(chars@) > d {
            assert(chars@[d as int] != '.');
        }
        assert(d == dot_idx(chars@));
    }
    if d == chars.len() {
        if digits_check(&chars, 0, chars.len()) {
            proof {
                assert(chars@.subrange(0, chars@.len() as int) =~= chars@);
            }
            let whole = crate::num::parse_digits(&chars, 0, chars.len());
            Some(Scalar { whole, frac: String::new() })
        } else {
            proof {
                assert(chars@.subrange(0, chars@.len() as int) =~= chars@);
            }
            None
        }
    } else {
        if chars.len() == 1 {
            proof {
                assert(chars@.take(0) =~= Seq::<char>::empty());
                assert(chars@.subrange(1, 1) =~= Seq::<char>::empty());
            }
            return None;
        }
        let wok = digits_check(&chars, 0, d);
        let fok = digits_check(&chars, d + 1, chars.len());
        proof {
            assert(chars@.subrange(0, d as int) =~= chars@.take(d as int));
        }
        if wok && fok {
            let whole = crate::num::parse_digits(&chars, 0, d);
            let frac = string_from_chars(&chars, d + 1, chars.len());
            Some(Scalar { whole, frac })
        } else {
            None
        }
    }
}

impl Hue {
    /// Reads a hue from decimal digits; text that is not a plain number,
    /// or one beyond sixteen bits, is rejected.
    pub fn from_str(s: &str) -> (r: Option<Hue>)
        ensures
            match r {
                Some(h) => s@.len() > 0 && all_digits(s@) && dec_val(s@) <= u16::MAX && h.val
                    == dec_val(s@),
                None => !(s@.len() > 0 && all_digits(s@) && dec_val(s@) <= u16::MAX),
            },
    {
        let chars = chars_vec(s);
        if chars.len() == 0 {
            return None;
        }
        proof {
            assert(chars@.subrange(0, chars@.len() as int) =~= chars@);
        }
        if !digits_check(&chars, 0, chars.len()) {
            return None;
        }
        let v = crate::num::parse_digits(&chars, 0, chars.len());
        proof {
            crate::num::lemma_dec_val_nonneg(chars@);
        }
        if v <= 65535 {
            Some(Hue { val: v as u16 })
        } else {
            None
        }
    }
}

impl Saturation {
    /// Reads a saturation from bare numeric text, per [`scalar_text`].
    pub fn from_str(s: &str) -> (r: Option<Saturation>)
        ensures
            match scalar_text(s@) {
                Some(sm) => r is Some && r->0.val@ == sm,
                None => r is None,
            },
    {
        match scalar_from_text(s) {
            Some(v) => Some(Saturation { val: v }),
            None => None,
        }
    }
}

impl Lightness {
    /// Reads a lightness from bare numeric text, per [`scalar_text`].
    pub fn from_str(s: &str) -> (r: Option<Lightness>)
        ensures
            match scalar_text(s@) {
                Some(sm) => r is Some && r->0.val@ == sm,
                None => r is None,
            },
    {
        match scalar_from_text(s) {
            Some(v) => Some(Lightness { val: v }),
            None => None,
        }
    }
}


// ---------------------------------------------------------------------
// Rendering values back to text.
// ---------------------------------------------------------------------

/// The keyword a direction renders to.
pub open spec fn dir_str(d: Direction) -> Seq<char> {
    match d {
        Direction::Left => "left"@,
        Direction::Right => "right"@,
        Direction::Top => "top"@,
        Direction::Bottom => "bottom"@,
    }
}

/// The suffix or keyword a position kind renders to.
pub open spec fn pvt_str(t: PositionValueType) -> Seq<char> {
    match t {
        PositionValueType::Top => "top"@,
        PositionValueType::Bottom => "bottom"@,
        PositionValueType::Left => "left"@,
        PositionValueType::Right => "right"@,
        PositionValueType::Center => "center"@,
        PositionValueType::Percentage => "%"@,
        PositionValueType::Pixels => "px"@,
        PositionValueType::Centimetre => "cm"@,
        PositionValueType::Millimetre => "mm"@,
        PositionValueType::Inch => "in"@,
        PositionValueType::Point => "pt"@,
        PositionValueType::Em => "em"@,
        PositionValueType::Pica => "pc"@,
        PositionValueType::Ex => "ex"@,
    }
}

/// The text a color renders to: its function form, its name, or the
/// `transparent` keyword.
pub open spec fn color_str(c: ColorModel) -> Seq<char> {
    match c {
        ColorModel::HSL(h, sv, lv) => "hsl("@ + int_str(h) + ", "@ + scalar_str(sv) + "%, "@
            + scalar_str(lv) + "%)"@,
        ColorModel::HSLA(h, sv, lv, a) => "hsla("@ + int_str(h) + ", "@ + scalar_str(sv) + "%, "@
            + scalar_str(lv) + "%, "@ + scalar_str(a) + "%)"@,
        ColorModel::RGB(rv, gv, bv) => "rgb("@ + scalar_str(rv) + ", "@ + scalar_str(gv) + ", "@
            + scalar_str(bv) + ")"@,
        ColorModel::RGBA(rv, gv, bv, a) => "rgba("@ + scalar_str(rv) + ", "@ + scalar_str(gv)
            + ", "@ + scalar_str(bv) + ", "@ + scalar_str(a) + ")"@,
        ColorModel::Name(n) => n,
        ColorModel::Transparent => "transparent"@,
    }
}

/// A comma-separated color list.
pub open spec fn colors_list(cs: Seq<ColorModel>) -> Seq<char>
    decreases cs.len(),
{
    if cs.len() == 0 {
        Seq::empty()
    } else if cs.len() == 1 {
        color_str(cs[0])
    } else {
        colors_list(cs.drop_last()) + ", "@ + color_str(cs.last())
    }
}

/// A color list in which every color is preceded by a comma.
pub open spec fn colors_tail(cs: Seq<ColorModel>) -> Seq<char>
    decreases cs.len(),
{
    if cs.len() == 0 {
        Seq::empty()
    } else {
        colors_tail(cs.drop_last()) + ", "@ + color_str(cs.last())
    }
}

/// The text one conic stop renders to: its color, then its angle when it
/// has one, then its position when it has one (keyword kinds render
/// without an amount).
pub open spec fn conic_val_str(v: ConicValueModel) -> Seq<char> {
    let base = color_str(v.color);
    let with_angle = (match v.from_angle {
        Some(a) => base + " "@ + scalar_str(a),
        None => base,
    });
    match v.at_position {
        Some((t, amt)) => {
            let val = (match t {
                PositionValueType::Em => scalar_str(amt),
                PositionValueType::Inch => scalar_str(amt),
                PositionValueType::Percentage => scalar_str(amt),
                PositionValueType::Pixels => scalar_str(amt),
                PositionValueType::Point => scalar_str(amt),
                PositionValueType::Centimetre => scalar_str(amt),
                PositionValueType::Millimetre => scalar_str(amt),
                _ => Seq::<char>::empty(),
            });
            with_angle + " "@ + val + pvt_str(t)
        },
        None => with_angle,
    }
}

/// A comma-separated conic stop list.
pub open spec fn conic_list(vs: Seq<ConicValueModel>) -> Seq<char>
    decreases vs.len(),
{
    if vs.len() == 0 {
        Seq::empty()
    } else if vs.len() == 1 {
        conic_val_str(vs[0])
    } else {
        conic_list(vs.drop_last()) + ", "@ + conic_val_str(vs.last())
    }
}

/// The text a conic gradient renders to.
pub open spec fn conic_str(g: ConicModel) -> Seq<char> {
    (if g.repeats {
        "repeating-conic-gradient"@
    } else {
        "conic-gradient"@
    }) + "("@ + conic_list(g.values) + ")"@
}

/// The text a linear gradient renders to: its directions, then every
/// color after a comma.
pub open spec fn linear_str(g: LinearModel) -> Seq<char> {
    let dirs = (match g.directions.second {
        Some(d2) => dir_str(g.directions.first) + " "@ + dir_str(d2),
        None => dir_str(g.directions.first),
    });
    "linear-gradient("@ + dirs + colors_tail(g.colors) + ")"@
}

/// The text a radial gradient renders to: its colors.
pub open spec fn radial_str(g: RadialModel) -> Seq<char> {
    (if g.repeats {
        "repeating-radial-gradient"@
    } else {
        "radial-gradient"@
    }) + "("@ + colors_list(g.colors) + ")"@
}

/// The text an image value renders to.
pub open spec fn image_str(i: ImageModel) -> Seq<char> {
    match i {
        ImageModel::Url(u) => "url("@ + u + ")"@,
        ImageModel::Conic(g) => conic_str(g),
        ImageModel::Linear(g) => linear_str(g),
        ImageModel::Radial(g) => radial_str(g),
        ImageModel::NoImage => "none"@,
    }
}

/// The text a background color renders to: the current-color marker is
/// empty.
pub open spec fn bgcolor_str(c: BgColorModel) -> Seq<char> {
    match c {
        BgColorModel::Color(cm) => color_str(cm),
        BgColorModel::CurrentColor => Seq::empty(),
    }
}

/// The keyword an attachment renders to.
pub open spec fn att_str(a: BackgroundAttachment) -> Seq<char> {
    match a {
        BackgroundAttachment::Scroll => "scroll"@,
        BackgroundAttachment::Fixed => "fixed"@,
        BackgroundAttachment::Local => "local"@,
    }
}

/// The keyword a blend mode renders to.
pub open spec fn blend_str(b: BackgroundBlendMode) -> Seq<char> {
    match b {
        BackgroundBlendMode::Normal => "normal"@,
        BackgroundBlendMode::Multiply => "multiply"@,
        BackgroundBlendMode::Screen => "screen"@,
        BackgroundBlendMode::Overlay => "overlay"@,
        BackgroundBlendMode::Darken => "darken"@,
        BackgroundBlendMode::Lighten => "lighten"@,
        BackgroundBlendMode::ColorDodge => "color-dodge"@,
        BackgroundBlendMode::Saturation => "saturation"@,
        BackgroundBlendMode::Color => "color"@,
        BackgroundBlendMode::Luminosity => "luminosity"@,
    }
}

/// The keyword a clip box renders to.
pub open spec fn clip_str(c: BackgroundClip) -> Seq<char> {
    match c {
        BackgroundClip::BorderBox => "border-box"@,
        BackgroundClip::PaddingBox => "padding-box"@,
        BackgroundClip::ContentBox => "content-box"@,
    }
}

/// The keyword an origin box renders to.
pub open spec fn origin_str(o: BackgroundOrigin) -> Seq<char> {
    match o {
        BackgroundOrigin::BorderBox => "border-box"@,
        BackgroundOrigin::PaddingBox => "padding-box"@,
        BackgroundOrigin::ContentBox => "content-box"@,
    }
}

/// The keyword a repeat mode renders to.
pub open spec fn repeat_str(x: BackgroundRepeat) -> Seq<char> {
    match x {
        BackgroundRepeat::Repeat => "repeat"@,
        BackgroundRepeat::RepeatX => "repeat-x"@,
        BackgroundRepeat::RepeatY => "repeat-y"@,
        BackgroundRepeat::NoRepeat => "no-repeat"@,
        BackgroundRepeat::Space => "space"@,
        BackgroundRepeat::Round => "round"@,
    }
}

/// The text a size renders to: a keyword, a percentage, or its numbers.
pub open spec fn size_str(sm: SizeModel) -> Seq<char> {
    match sm {
        SizeModel::Auto => "auto"@,
        SizeModel::Cover => "cover"@,
        SizeModel::Contain => "contain"@,
        SizeModel::Percentage(a) => scalar_str(a) + "%"@,
        SizeModel::Length(a, b) => match b {
            Some(bv) => scalar_str(a) + " "@ + scalar_str(bv),
            None => scalar_str(a),
        },
    }
}

/// The text a position value renders to: its keyword, or its number with
/// its suffix.
pub open spec fn position_str(p: (PositionValueType, ScalarModel)) -> Seq<char> {
    match p.0 {
        PositionValueType::Left => pvt_str(p.0),
        PositionValueType::Right => pvt_str(p.0),
        PositionValueType::Center => pvt_str(p.0),
        PositionValueType::Top => pvt_str(p.0),
        PositionValueType::Bottom => pvt_str(p.0),
        _ => scalar_str(p.1) + pvt_str(p.0),
    }
}

/// An image list in which every image is preceded by a space.
pub open spec fn images_tail(is: Seq<ImageModel>) -> Seq<char>
    decreases is.len(),
{
    if is.len() == 0 {
        Seq::empty()
    } else {
        images_tail(is.drop_last()) + " "@ + image_str(is.last())
    }
}

/// The canonical text of the whole family: every field, space-joined.
pub open spec fn shorthand_str(b: BackgroundModel) -> Seq<char> {
    bgcolor_str(b.color) + images_tail(b.image) + " "@ + position_str(b.position.0) + " "@
        + position_str(b.position.1) + " "@ + att_str(b.attachment) + " "@ + blend_str(
        b.blend_mode,
    ) + " "@ + clip_str(b.clip) + " "@ + origin_str(b.origin) + " "@ + repeat_str(b.repeat) + " "@
        + size_str(b.size)
}

/// The text a background value renders to: colors and images by their
/// forms, keyword sub-values by their keyword, sizes by their numbers,
/// the shorthand aggregate canonically with every field.
pub open spec fn bgvalue_str(v: BgValueModel) -> Seq<char> {
    match v {
        BgValueModel::Color(c) => bgcolor_str(c),
        BgValueModel::Image(i) => image_str(i),
        BgValueModel::Attachment(a) => att_str(a),
        BgValueModel::BlendMode(b) => blend_str(b),
        BgValueModel::Clip(c) => clip_str(c),
        BgValueModel::Origin(o) => origin_str(o),
        BgValueModel::Repeat(x) => repeat_str(x),
        BgValueModel::Size(sm) => size_str(sm),
        BgValueModel::Shorthand(b) => shorthand_str(b),
    }
}

impl Direction {
    /// Appends the direction's keyword.
    fn push_chars(&self, out: &mut Vec<char>)
        ensures
            final(out)@ == old(out)@ + dir_str(*self),
    {
        match self {
            Direction::Left => push_str(out, "left"),
            Direction::Right => push_str(out, "right"),
            Direction::Top => push_str(out, "top"),
            Direction::Bottom => push_str(out, "bottom"),
        }
    }

    /// The direction's keyword, per [`dir_str`].
    pub fn to_string(&self) -> (r: String)
        ensures
            r@ == dir_str(*self),
    {
        let mut out: Vec<char> = Vec::new();
        self.push_chars(&mut out);
        proof {
            assert(Seq::<char>::empty() + dir_str(*self) =~= dir_str(*self));
        }
        string_of(&out)
    }
}

impl PositionValueType {
    /// Appends the kind's keyword or suffix.
    fn push_chars(&self, out: &mut Vec<char>)
        ensures
            final(out)@ == old(out)@ + pvt_str(*self),
    {
        match self {
            PositionValueType::Top => push_str(out, "top"),
            PositionValueType::Bottom => push_str(out, "bottom"),
            PositionValueType::Left => push_str(out, "left"),
            PositionValueType::Right => push_str(out, "right"),
            PositionValueType::Center => push_str(out, "center"),
            PositionValueType::Percentage => push_str(out, "%"),
            PositionValueType::Pixels => push_str(out, "px"),
            PositionValueType::Centimetre => push_str(out, "cm"),
            PositionValueType::Millimetre => push_str(out, "mm"),
            PositionValueType::Inch => push_str(out, "in"),
            PositionValueType::Point => push_str(out, "pt"),
            PositionValueType::Em => push_str(out, "em"),
            PositionValueType::Pica => push_str(out, "pc"),
            PositionValueType::Ex => push_str(out, "ex"),
        }
    }

    /// The kind's keyword or suffix, per [`pvt_str`].
    pub fn to_string(&self) -> (r: String)
        ensures
            r@ == pvt_str(*self),
    {
        let mut out: Vec<char> = Vec::new();
        self.push_chars(&mut out);
        proof {
            assert(Seq::<char>::empty() + pvt_str(*self) =~= pvt_str(*self));
        }
        string_of(&out)
    }
}

impl Color {
    /// Appends the color's text.
    fn push_chars(&self, out: &mut Vec<char>)
        ensures
            final(out)@ == old(out)@ + color_str(self@),
    {
        let ghost pre = out@;
        match self {
            Color::HSL(h, sv, lv) => {
                push_str(out, "hsl(");
                crate::num::push_i64(out, h.val as i64);
                push_str(out, ", ");
                sv.val.push_chars(out);
                push_str(out, "%, ");
                lv.val.push_chars(out);
                push_str(out, "%)");
            }
            Color::HSLA(h, sv, lv, a) => {
                push_str(out, "hsla(");
                crate::num::push_i64(out, h.val as i64);
                push_str(out, ", ");
                sv.val.push_chars(out);
                push_str(out, "%, ");
                lv.val.push_chars(out);
                push_str(out, "%, ");
                a.push_chars(out);
                push_str(out, "%)");
            }
            Color::RGB(rv, gv, bv) => {
                push_str(out, "rgb(");
                rv.push_chars(out);
                push_str(out, ", ");
                gv.push_chars(out);
                push_str(out, ", ");
                bv.push_chars(out);
                push_str(out, ")");
            }
            Color::RGBA(rv, gv, bv, a) => {
                push_str(out, "rgba(");
                rv.push_chars(out);
                push_str(out, ", ");
                gv.push_chars(out);
                push_str(out, ", ");
                bv.push_chars(out);
                push_str(out, ", ");
                a.push_chars(out);
                push_str(out, ")");
            }
            Color::Name(n) => {
                push_str(out, n.as_str());
            }
            Color::Transparent => {
                push_str(out, "transparent");
            }
        }
    }

    /// The color's text, per [`color_str`].
    pub fn to_string(&self) -> (r: String)
        ensures
            r@ == color_str(self@),
    {
        let mut out: Vec<char> = Vec::new();
        self.push_chars(&mut out);
        proof {
            assert(Seq::<char>::empty() + color_str(self@) =~= color_str(self@));
        }
        string_of(&out)
    }
}

/// Appends a comma-separated color list, per [`colors_list`].
fn push_colors_list(out: &mut Vec<char>, cs: &Vec<Color>)
    ensures
        final(out)@ == old(out)@ + colors_list(cs@.map_values(|c: Color| c@)),
{
    let ghost pre = out@;
    let ghost cm = cs@.map_values(|c: Color| c@);
    let mut i: usize = 0;
    proof {
        assert(cm.take(0) =~= Seq::<ColorModel>::empty());
        assert(pre + colors_list(cm.take(0)) =~= pre);
    }
    while i < cs.len()
        invariant
            0 <= i <= cs@.len(),
            cm == cs@.map_values(|c: Color| c@),
            out@ == pre + colors_list(cm.take(i as int)),
        decreases cs@.len() - i,
    {
        proof {
            assert(cm.take(i + 1).drop_last() =~= cm.take(i as int));
            assert(cm.take(i + 1).last() == cm[i as int]);
            assert(cm[i as int] == cs@[i as int]@);
        }
        if i > 0 {
            push_str(out, ", ");
        }
        cs[i].push_chars(out);
        proof {
            assert(out@ =~= pre + colors_list(cm.take(i + 1)));
        }
        i += 1;
    }
    proof {
        assert(cm.take(cs@.len() as int) =~= cm);
    }
}

/// Appends a color list with every color after a comma, per
/// [`colors_tail`].
fn push_colors_tail(out: &mut Vec<char>, cs: &Vec<Color>)
    ensures
        final(out)@ == old(out)@ + colors_tail(cs@.map_values(|c: Color| c@)),
{
    let ghost pre = out@;
    let ghost cm = cs@.map_values(|c: Color| c@);
    let mut i: usize = 0;
    proof {
        assert(cm.take(0) =~= Seq::<ColorModel>::empty());
        assert(pre + colors_tail(cm.take(0)) =~= pre);
    }
    while i < cs.len()
        invariant
            0 <= i <= cs@.len(),
            cm == cs@.map_values(|c: Color| c@),
            out@ == pre + colors_tail(cm.take(i as int)),
        decreases cs@.len() - i,
    {
        proof {
            assert(cm.take(i + 1).drop_last() =~= cm.take(i as int));
            assert(cm.take(i + 1).last() == cm[i as int]);
            assert(cm[i as int] == cs@[i as int]@);
        }
        push_str(out, ", ");
        cs[i].push_chars(out);
        proof {
            assert(out@ =~= pre + colors_tail(cm.take(i + 1)));
        }
        i += 1;
    }
    proof {
        assert(cm.take(cs@.len() as int) =~= cm);
    }
}

impl ConicGradientValue {
    /// Appends the stop's text.
    fn push_chars(&self, out: &mut Vec<char>)
        ensures
            final(out)@ == old(out)@ + conic_val_str(self@),
    {
        let ghost pre = out@;
        self.color.push_chars(out);
        match &self.from_angle {
            Some(a) => {
                push_str(out, " ");
                a.push_chars(out);
            }
            None => {}
        }
        match &self.at_position {
            Some(p) => {
                push_str(out, " ");
                match p.kind {
                    PositionValueType::Em => p.amount.push_chars(out),
                    PositionValueType::Inch => p.amount.push_chars(out),
                    PositionValueType::Percentage => p.amount.push_chars(out),
                    PositionValueType::Pixels => p.amount.push_chars(out),
                    PositionValueType::Point => p.amount.push_chars(out),
                    PositionValueType::Centimetre => p.amount.push_chars(out),
                    PositionValueType::Millimetre => p.amount.push_chars(out),
                    _ => {}
                }
                p.kind.push_chars(out);
                proof {
                    assert(out@ =~= pre + conic_val_str(self@));
                }
            }
            None => {}
        }
    }

    /// The stop's text, per [`conic_val_str`].
    pub fn to_string(&self) -> (r: String)
        ensures
            r@ == conic_val_str(self@),
    {
        let mut out: Vec<char> = Vec::new();
        self.push_chars(&mut out);
        proof {
            assert(Seq::<char>::empty() + conic_val_str(self@) =~= conic_val_str(self@));
        }
        string_of(&out)
    }
}

impl ConicGradient {
    /// The gradient's text, per [`conic_str`].
    pub fn to_string(&self) -> (r: String)
        ensures
            r@ == conic_str(self@),
    {
        let mut out: Vec<char> = Vec::new();
        if self.repeats {
            push_str(&mut out, "repeating-conic-gradient");
        } else {
            push_str(&mut out, "conic-gradient");
        }
        push_str(&mut out, "(");
        let ghost mid = out@;
        let ghost vm = self.values@.map_values(|v: ConicGradientValue| v@);
        let mut i: usize = 0;
        proof {
            assert(vm.take(0) =~= Seq::<ConicValueModel>::empty());
            assert(mid + conic_list(vm.take(0)) =~= mid);
        }
        while i < self.values.len()
            invariant
                0 <= i <= self.values@.len(),
                vm == self.values@.map_values(|v: ConicGradientValue| v@),
                out@ == mid + conic_list(vm.take(i as int)),
            decreases self.values@.len() - i,
        {
            proof {
                assert(vm.take(i + 1).drop_last() =~= vm.take(i as int));
                assert(vm.take(i + 1).last() == vm[i as int]);
                assert(vm[i as int] == self.values@[i as int]@);
            }
            if i > 0 {
                push_str(&mut out, ", ");
            }
            self.values[i].push_chars(&mut out);
            proof {
                assert(out@ =~= mid + conic_list(vm.take(i + 1)));
            }
            i += 1;
        }
        proof {
            assert(vm.take(self.values@.len() as int) =~= vm);
        }
        push_str(&mut out, ")");
        proof {
            assert(out@ =~= conic_str(self@));
        }
        string_of(&out)
    }
}

impl LinearGradient {
    /// The gradient's text, per [`linear_str`].
    pub fn to_string(&self) -> (r: String)
        ensures
            r@ == linear_str(self@),
    {
        let mut out: Vec<char> = Vec::new();
        push_str(&mut out, "linear-gradient(");
        self.directions.first.push_chars(&mut out);
        match &self.directions.second {
            Some(d2) => {
                push_str(&mut out, " ");
                d2.push_chars(&mut out);
            }
            None => {}
        }
        push_colors_tail(&mut out, &self.colors);
        push_str(&mut out, ")");
        proof {
            assert(out@ =~= linear_str(self@));
        }
        string_of(&out)
    }
}

impl RadialGradient {
    /// The gradient's text, per [`radial_str`].
    pub fn to_string(&self) -> (r: String)
        ensures
            r@ == radial_str(self@),
    {
        let mut out: Vec<char> = Vec::new();
        if self.repeats {
            push_str(&mut out, "repeating-radial-gradient");
        } else {
            push_str(&mut out, "radial-gradient");
        }
        push_str(&mut out, "(");
        push_colors_list(&mut out, &self.colors);
        push_str(&mut out, ")");
        proof {
            assert(out@ =~= radial_str(self@));
        }
        string_of(&out)
    }
}

impl BackgroundImage {
    /// The image's text, per [`image_str`].
    pub fn to_string(&self) -> (r: String)
        ensures
            r@ == image_str(self@),
    {
        match self {
            BackgroundImage::Url(u) => {
                let mut out: Vec<char> = Vec::new();
                push_str(&mut out, "url(");
                push_str(&mut out, u.as_str());
                push_str(&mut out, ")");
                proof {
                    assert(out@ =~= image_str(self@));
                }
                string_of(&out)
            }
            BackgroundImage::ConicGradient(g) => g.to_string(),
            BackgroundImage::LinearGradient(g) => g.to_string(),
            BackgroundImage::RadialGradient(g) => g.to_string(),
            BackgroundImage::NoImage => "none".to_owned(),
        }
    }
}

impl BackgroundColor {
    /// The color's text, per [`bgcolor_str`]: the current-color marker
    /// renders empty.
    pub fn to_string(&self) -> (r: String)
        ensures
            r@ == bgcolor_str(self@),
    {
        match self {
            BackgroundColor::Color(c) => c.to_string(),
            BackgroundColor::CurrentColor => String::new(),
        }
    }
}

impl BackgroundValue {
    /// The value's text, per [`bgvalue_str`].
    pub fn to_string(&self) -> (r: String)
        ensures
            r@ == bgvalue_str(self@),
    {
        match self {
            BackgroundValue::Color(c) => c.to_string(),
            BackgroundValue::Image(i) => i.to_string(),
            BackgroundValue::Attachment(BackgroundAttachment::Scroll) => "scroll".to_owned(),
            BackgroundValue::Attachment(BackgroundAttachment::Fixed) => "fixed".to_owned(),
            BackgroundValue::Attachment(BackgroundAttachment::Local) => "local".to_owned(),
            BackgroundValue::BlendMode(BackgroundBlendMode::Normal) => "normal".to_owned(),
            BackgroundValue::BlendMode(BackgroundBlendMode::Multiply) => "multiply".to_owned(),
            BackgroundValue::BlendMode(BackgroundBlendMode::Screen) => "screen".to_owned(),
            BackgroundValue::BlendMode(BackgroundBlendMode::Overlay) => "overlay".to_owned(),
            BackgroundValue::BlendMode(BackgroundBlendMode::Darken) => "darken".to_owned(),
            BackgroundValue::BlendMode(BackgroundBlendMode::Lighten) => "lighten".to_owned(),
            BackgroundValue::BlendMode(BackgroundBlendMode::ColorDodge) => "color-dodge".to_owned(),
            BackgroundValue::BlendMode(BackgroundBlendMode::Saturation) => "saturation".to_owned(),
            BackgroundValue::BlendMode(BackgroundBlendMode::Color) => "color".to_owned(),
            BackgroundValue::BlendMode(BackgroundBlendMode::Luminosity) => "luminosity".to_owned(),
            BackgroundValue::Clip(BackgroundClip::BorderBox) => "border-box".to_owned(),
            BackgroundValue::Clip(BackgroundClip::PaddingBox) => "padding-box".to_owned(),
            BackgroundValue::Clip(BackgroundClip::ContentBox) => "content-box".to_owned(),
            BackgroundValue::Origin(BackgroundOrigin::BorderBox) => "border-box".to_owned(),
            BackgroundValue::Origin(BackgroundOrigin::PaddingBox) => "padding-box".to_owned(),
            BackgroundValue::Origin(BackgroundOrigin::ContentBox) => "content-box".to_owned(),
            BackgroundValue::Repeat(BackgroundRepeat::Repeat) => "repeat".to_owned(),
            BackgroundValue::Repeat(BackgroundRepeat::RepeatX) => "repeat-x".to_owned(),
            BackgroundValue::Repeat(BackgroundRepeat::RepeatY) => "repeat-y".to_owned(),
            BackgroundValue::Repeat(BackgroundRepeat::NoRepeat) => "no-repeat".to_owned(),
            BackgroundValue::Repeat(BackgroundRepeat::Space) => "space".to_owned(),
            BackgroundValue::Repeat(BackgroundRepeat::Round) => "round".to_owned(),
            BackgroundValue::Size(BackgroundSize::Auto) => "auto".to_owned(),
            BackgroundValue::Size(BackgroundSize::Cover) => "cover".to_owned(),
            BackgroundValue::Size(BackgroundSize::Contain) => "contain".to_owned(),
            BackgroundValue::Size(BackgroundSize::Percentage(a)) => {
                let mut out: Vec<char> = Vec::new();
                a.push_chars(&mut out);
                push_str(&mut out, "%");
                proof {
                    assert(out@ =~= bgvalue_str(self@));
                }
                string_of(&out)
            }
            BackgroundValue::Size(BackgroundSize::Length(a, b)) => {
                let mut out: Vec<char> = Vec::new();
                a.push_chars(&mut out);
                match b {
                    Some(bv) => {
                        push_str(&mut out, " ");
                        bv.push_chars(&mut out);
                    }
                    None => {}
                }
                proof {
                    assert(out@ =~= bgvalue_str(self@));
                }
                string_of(&out)
            }
            BackgroundValue::Shorthand(b) => b.to_string(),
        }
    }
}

impl Background {
    /// Appends a position value's text, per [`position_str`].
    fn push_position(out: &mut Vec<char>, p: &PositionValue)
        ensures
            final(out)@ == old(out)@ + position_str(pos_model(*p)),
    {
        match p.kind {
            PositionValueType::Left => p.kind.push_chars(out),
            PositionValueType::Right => p.kind.push_chars(out),
            PositionValueType::Center => p.kind.push_chars(out),
            PositionValueType::Top => p.kind.push_chars(out),
            PositionValueType::Bottom => p.kind.push_chars(out),
            _ => {
                let ghost pre = out@;
                p.amount.push_chars(out);
                p.kind.push_chars(out);
                proof {
                    assert(out@ =~= pre + position_str(pos_model(*p)));
                }
            }
        }
    }

    /// Appends a size's text, per [`size_str`].
    fn push_size(out: &mut Vec<char>, sm: &BackgroundSize)
        ensures
            final(out)@ == old(out)@ + size_str(sm@),
    {
        let ghost pre = out@;
        match sm {
            BackgroundSize::Auto => push_str(out, "auto"),
            BackgroundSize::Cover => push_str(out, "cover"),
            BackgroundSize::Contain => push_str(out, "contain"),
            BackgroundSize::Percentage(a) => {
                a.push_chars(out);
                push_str(out, "%");
                proof {
                    assert(out@ =~= pre + size_str(sm@));
                }
            }
            BackgroundSize::Length(a, b) => {
                a.push_chars(out);
                match b {
                    Some(bv) => {
                        push_str(out, " ");
                        bv.push_chars(out);
                        proof {
                            assert(out@ =~= pre + size_str(sm@));
                        }
                    }
                    None => {}
                }
            }
        }
    }

    /// The canonical text of the whole family, per [`shorthand_str`].
    #[verifier::rlimit(100)]
    #[verifier::spinoff_prover]
    pub fn to_string(&self) -> (r: String)
        ensures
            r@ == shorthand_str(self@),
    {
        let mut out: Vec<char> = Vec::new();
        match &self.color {
            BackgroundColor::Color(c) => c.push_chars(&mut out),
            BackgroundColor::CurrentColor => {
                proof {
                    assert(out@ =~= Seq::<char>::empty() + bgcolor_str(self.color@));
                }
            }
        }
        proof {
            assert(out@ =~= Seq::<char>::empty() + bgcolor_str(self.color@));
        }
        let ghost mid0 = out@;
        let ghost im = self.image@.map_values(|i: BackgroundImage| i@);
        let mut j: usize = 0;
        proof {
            assert(im.take(0) =~= Seq::<ImageModel>::empty());
            assert(mid0 + images_tail(im.take(0)) =~= mid0);
        }
        while j < self.image.len()
            invariant
                0 <= j <= self.image@.len(),
                im == self.image@.map_values(|i: BackgroundImage| i@),
                out@ == mid0 + images_tail(im.take(j as int)),
            decreases self.image@.len() - j,
        {
            proof {
                assert(im.take(j + 1).drop_last() =~= im.take(j as int));
                assert(im.take(j + 1).last() == im[j as int]);
                assert(im[j as int] == self.image@[j as int]@);
            }
            push_str(&mut out, " ");
            let rendered = self.image[j].to_string();
            push_str(&mut out, rendered.as_str());
            proof {
                assert(out@ =~= mid0 + images_tail(im.take(j + 1)));
            }
            j += 1;
        }
        proof {
            assert(im.take(self.image@.len() as int) =~= im);
        }
        push_str(&mut out, " ");
        Self::push_position(&mut out, &self.position.x);
        push_str(&mut out, " ");
        Self::push_position(&mut out, &self.position.y);
        push_str(&mut out, " ");
        match self.attachment {
            BackgroundAttachment::Scroll => push_str(&mut out, "scroll"),
            BackgroundAttachment::Fixed => push_str(&mut out, "fixed"),
            BackgroundAttachment::Local => push_str(&mut out, "local"),
        }
        push_str(&mut out, " ");
        match self.blend_mode {
            BackgroundBlendMode::Normal => push_str(&mut out, "normal"),
            BackgroundBlendMode::Multiply => push_str(&mut out, "multiply"),
            BackgroundBlendMode::Screen => push_str(&mut out, "screen"),
            BackgroundBlendMode::Overlay => push_str(&mut out, "overlay"),
            BackgroundBlendMode::Darken => push_str(&mut out, "darken"),
            BackgroundBlendMode::Lighten => push_str(&mut out, "lighten"),
            BackgroundBlendMode::ColorDodge => push_str(&mut out, "color-dodge"),
            BackgroundBlendMode::Saturation => push_str(&mut out, "saturation"),
            BackgroundBlendMode::Color => push_str(&mut out, "color"),
            BackgroundBlendMode::Luminosity => push_str(&mut out, "luminosity"),
        }
        push_str(&mut out, " ");
        match self.clip {
            BackgroundClip::BorderBox => push_str(&mut out, "border-box"),
            BackgroundClip::PaddingBox => push_str(&mut out, "padding-box"),
            BackgroundClip::ContentBox => push_str(&mut out, "content-box"),
        }
        push_str(&mut out, " ");
        match self.origin {
            BackgroundOrigin::BorderBox => push_str(&mut out, "border-box"),
            BackgroundOrigin::PaddingBox => push_str(&mut out, "padding-box"),
            BackgroundOrigin::ContentBox => push_str(&mut out, "content-box"),
        }
        push_str(&mut out, " ");
        match self.repeat {
            BackgroundRepeat::Repeat => push_str(&mut out, "repeat"),
            BackgroundRepeat::RepeatX => push_str(&mut out, "repeat-x"),
            BackgroundRepeat::RepeatY => push_str(&mut out, "repeat-y"),
            BackgroundRepeat::NoRepeat => push_str(&mut out, "no-repeat"),
            BackgroundRepeat::Space => push_str(&mut out, "space"),
            BackgroundRepeat::Round => push_str(&mut out, "round"),
        }
        push_str(&mut out, " ");
        Self::push_size(&mut out, &self.size);
        proof {
            assert(out@ =~= shorthand_str(self@));
        }
        string_of(&out)
    }
}

impl Hue {
    /// The hue's decimal text.
    pub fn to_string(&self) -> (r: String)
        ensures
            r@ == int_str(self.val as int),
    {
        let mut out: Vec<char> = Vec::new();
        crate::num::push_i64(&mut out, self.val as i64);
        proof {
            assert(Seq::<char>::empty() + int_str(self.val as int) =~= int_str(self.val as int));
        }
        string_of(&out)
    }
}

impl Saturation {
    /// The saturation's decimal text.
    pub fn to_string(&self) -> (r: String)
        ensures
            r@ == scalar_str(self.val@),
    {
        self.val.to_string()
    }
}

impl Lightness {
    /// The lightness's decimal text.
    pub fn to_string(&self) -> (r: String)
        ensures
            r@ == scalar_str(self.val@),
    {
        self.val.to_string()
    }
}


/// Law: a hue's decimal text reads back as the same hue — rendering with
/// [`Hue::to_string`] and reading with [`Hue::from_str`] is the
/// identity, for every sixteen-bit value.
pub proof fn lemma_hue_round_trip(h: Hue)
    ensures
        int_str(h.val as int).len() > 0,
        all_digits(int_str(h.val as int)),
        dec_val(int_str(h.val as int)) == h.val as int,
        dec_val(int_str(h.val as int)) <= u16::MAX,
{
    crate::num::lemma_dec_str_round_trip(h.val as int);
}

} // verus!
