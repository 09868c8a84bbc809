//! What is drawn in a symbol: lines with their stroke and fill, and text.

use vstd::prelude::*;
use crate::error::{outcome_view, Fault, ParseError};
use crate::guard::{check_expression_validity, children_from, children_of, opens_with, word_at, word_of};
use crate::number::Number;
use crate::symbols::style::{
    effects_of, keyword_of, location_of, number_at, number_of, EffectsModel, KiCadEffects,
    KiCadLocation,
};
use crate::symbols::{atoms_of_all, TryFromExpression};
use crate::text::{lowercase, lowercase_of, same_text};
use crate::token::{Atom, Expression};

verus! {

/// The kind of line that a stroke draws.
#[derive(Debug, Clone, Copy, PartialEq, Eq, Structural)]
pub enum KiCadStrokeType {
    Default,
}

impl DeepView for KiCadStrokeType {
    type V = KiCadStrokeType;

    open spec fn deep_view(&self) -> KiCadStrokeType {
        *self
    }
}

impl KiCadStrokeType {
    /// The kind that a word in lower case names.
    pub open spec fn named(lowered: Seq<char>) -> Option<KiCadStrokeType> {
        if lowered == "default"@ {
            Some(KiCadStrokeType::Default)
        } else {
            None
        }
    }

    /// The kind that a word in lower case names.
    pub fn from_lowercase(lowered: &str) -> (kind: Option<KiCadStrokeType>)
        ensures
            kind == Self::named(lowered@),
    {
        if same_text(lowered, "default") {
            Some(KiCadStrokeType::Default)
        } else {
            None
        }
    }

    /// The kind that a word names, whatever its case: the word is brought to
    /// lower case and then looked up. A word that names no kind is a value
    /// error under `type`.
    pub fn from_str(s: &str) -> (outcome: Result<KiCadStrokeType, ParseError>)
        ensures
            outcome_view(outcome) == match Self::named(lowercase_of(s@)) {
                Some(kind) => Ok::<KiCadStrokeType, Fault>(kind),
                None => Err(Fault::Value { field: "type"@ }),
            },
    {
        let lowered = lowercase(s);
        match Self::from_lowercase(lowered.as_str()) {
            Some(kind) => Ok(kind),
            None => Err(ParseError::value("type")),
        }
    }
}

/// A stroke as the contracts see it.
pub struct StrokeModel {
    pub width: Option<Seq<char>>,
    pub stroke_type: Option<KiCadStrokeType>,
}

/// How a line is drawn.
#[derive(Debug, Clone)]
pub struct KiCadStroke {
    pub width: Option<Number>,
    pub stroke_type: Option<KiCadStrokeType>,
}

impl DeepView for KiCadStroke {
    type V = StrokeModel;

    open spec fn deep_view(&self) -> StrokeModel {
        StrokeModel { width: self.width.deep_view(), stroke_type: self.stroke_type }
    }
}

/// The stroke after one more child. `width` carries a number and `type` the
/// name of a kind, each as the child's third token; a child without a
/// keyword changes nothing; any other keyword is refused.
pub open spec fn stroke_with(stroke: StrokeModel, child: Seq<Atom>) -> Result<StrokeModel, Fault> {
    match word_at(child, 1) {
        None => Ok(stroke),
        Some(keyword) => if keyword == "width"@ {
            match number_at(child, 2) {
                Some(width) => Ok(StrokeModel { width: Some(width), ..stroke }),
                None => Err(Fault::Value { field: "width"@ }),
            }
        } else if keyword == "type"@ {
            match word_at(child, 2) {
                Some(word) => match KiCadStrokeType::named(lowercase_of(word)) {
                    Some(kind) => Ok(StrokeModel { stroke_type: Some(kind), ..stroke }),
                    None => Err(Fault::Value { field: "type"@ }),
                },
                None => Err(Fault::Value { field: "type"@ }),
            }
        } else {
            Err(Fault::Schema { form: "stroke"@, keyword })
        },
    }
}

/// The stroke after the children from `at` on, read in order up to the
/// first that fails.
pub open spec fn stroke_from(children: Seq<Seq<Atom>>, at: int, stroke: StrokeModel) -> Result<
    StrokeModel,
    Fault,
>
    decreases children.len() - at,
{
    if at < 0 || at >= children.len() {
        Ok(stroke)
    } else {
        match stroke_with(stroke, children[at]) {
            Ok(next) => stroke_from(children, at + 1, next),
            Err(fault) => Err(fault),
        }
    }
}

/// What `(stroke child ...)` stands for.
pub open spec fn stroke_of(expression: Seq<Atom>) -> Result<StrokeModel, Fault> {
    if !opens_with(expression, "stroke"@) {
        Err(Fault::Structure { form: "stroke"@ })
    } else {
        stroke_from(children_of(expression, 2), 0, StrokeModel { width: None, stroke_type: None })
    }
}

impl TryFromExpression<KiCadStroke> for KiCadStroke {
    open spec fn meaning(expression: Seq<Atom>) -> Result<StrokeModel, Fault> {
        stroke_of(expression)
    }

    fn try_from_expression(expression: Expression) -> (outcome: Result<KiCadStroke, ParseError>) {
        let ghost atoms = expression.deep_view();
        check_expression_validity(&expression, "stroke".to_owned())?;
        let children = children_from(expression, 2);
        let ghost forms = children.deep_view();
        assert(forms =~= atoms_of_all(children@));
        let mut stroke = KiCadStroke { width: None, stroke_type: None };
        for child in it: children
            invariant
                atoms == expression.deep_view(),
                forms == atoms_of_all(it.seq()),
                stroke_from(forms, it.index() as int, stroke.deep_view()) == stroke_of(atoms),
        {
            assert(forms[it.index() as int] == child.deep_view());
            match keyword_of(&child) {
                None => {},
                Some(keyword) => {
                    if same_text(keyword.as_str(), "width") {
                        match number_of(&child, 2) {
                            Some(width) => {
                                stroke.width = Some(width);
                            },
                            None => {
                                return Err(ParseError::value("width"));
                            },
                        }
                    } else if same_text(keyword.as_str(), "type") {
                        match word_of(&child, 2) {
                            Some(word) => {
                                stroke.stroke_type = Some(KiCadStrokeType::from_str(word.as_str())?);
                            },
                            None => {
                                return Err(ParseError::value("type"));
                            },
                        }
                    } else {
                        return Err(ParseError::Schema { form: "stroke".to_owned(), keyword });
                    }
                },
            }
        }
        Ok(stroke)
    }
}

/// How the inside of a shape is filled.
#[derive(Debug, Clone, Copy, PartialEq, Eq, Structural)]
pub enum KiCadFillType {
    Background,
    Outline,
    /// Written `none`: the shape is left empty.
    Unfilled,
}

impl DeepView for KiCadFillType {
    type V = KiCadFillType;

    open spec fn deep_view(&self) -> KiCadFillType {
        *self
    }
}

impl KiCadFillType {
    /// The filling that a word in lower case names.
    pub open spec fn named(lowered: Seq<char>) -> Option<KiCadFillType> {
        if lowered == "background"@ {
            Some(KiCadFillType::Background)
        } else if lowered == "outline"@ {
            Some(KiCadFillType::Outline)
        } else if lowered == "none"@ {
            Some(KiCadFillType::Unfilled)
        } else {
            None
        }
    }

    /// The filling that a word in lower case names.
    pub fn from_lowercase(lowered: &str) -> (kind: Option<KiCadFillType>)
        ensures
            kind == Self::named(lowered@),
    {
        if same_text(lowered, "background") {
            Some(KiCadFillType::Background)
        } else if same_text(lowered, "outline") {
            Some(KiCadFillType::Outline)
        } else if same_text(lowered, "none") {
            Some(KiCadFillType::Unfilled)
        } else {
            None
        }
    }

    /// The filling that a word names, whatever its case: the word is brought
    /// to lower case and then looked up. A word that names no filling is a
    /// value error under `type`.
    pub fn from_str(s: &str) -> (outcome: Result<KiCadFillType, ParseError>)
        ensures
            outcome_view(outcome) == match Self::named(lowercase_of(s@)) {
                Some(kind) => Ok::<KiCadFillType, Fault>(kind),
                None => Err(Fault::Value { field: "type"@ }),
            },
    {
        let lowered = lowercase(s);
        match Self::from_lowercase(lowered.as_str()) {
            Some(kind) => Ok(kind),
            None => Err(ParseError::value("type")),
        }
    }
}

/// The filling of a shape, where one is given.
#[derive(Debug, Clone, Copy, PartialEq, Eq, Structural)]
pub struct KiCadFill {
    pub fill_type: Option<KiCadFillType>,
}

impl DeepView for KiCadFill {
    type V = KiCadFill;

    open spec fn deep_view(&self) -> KiCadFill {
        *self
    }
}

/// The fill after one more child. `type` carries the name of a filling as
/// the child's third token; a child without a keyword changes nothing; any
/// other keyword is refused.
pub open spec fn fill_with(fill: KiCadFill, child: Seq<Atom>) -> Result<KiCadFill, Fault> {
    match word_at(child, 1) {
        None => Ok(fill),
        Some(keyword) => if keyword == "type"@ {
            match word_at(child, 2) {
                Some(word) => match KiCadFillType::named(lowercase_of(word)) {
                    Some(kind) => Ok(KiCadFill { fill_type: Some(kind) }),
                    None => Err(Fault::Value { field: "type"@ }),
                },
                None => Err(Fault::Value { field: "type"@ }),
            }
        } else {
            Err(Fault::Schema { form: "fill"@, keyword })
        },
    }
}

/// The fill after the children from `at` on, read in order up to the first
/// that fails.
pub open spec fn fill_from(children: Seq<Seq<Atom>>, at: int, fill: KiCadFill) -> Result<
    KiCadFill,
    Fault,
>
    decreases children.len() - at,
{
    if at < 0 || at >= children.len() {
        Ok(fill)
    } else {
        match fill_with(fill, children[at]) {
            Ok(next) => fill_from(children, at + 1, next),
            Err(fault) => Err(fault),
        }
    }
}

/// What `(fill child ...)` stands for.
pub open spec fn fill_of(expression: Seq<Atom>) -> Result<KiCadFill, Fault> {
    if !opens_with(expression, "fill"@) {
        Err(Fault::Structure { form: "fill"@ })
    } else {
        fill_from(children_of(expression, 2), 0, KiCadFill { fill_type: None })
    }
}

impl TryFromExpression<KiCadFill> for KiCadFill {
    open spec fn meaning(expression: Seq<Atom>) -> Result<KiCadFill, Fault> {
        fill_of(expression)
    }

    fn try_from_expression(expression: Expression) -> (outcome: Result<KiCadFill, ParseError>) {
        let ghost atoms = expression.deep_view();
        check_expression_validity(&expression, "fill".to_owned())?;
        let children = children_from(expression, 2);
        let ghost forms = children.deep_view();
        assert(forms =~= atoms_of_all(children@));
        let mut fill = KiCadFill { fill_type: None };
        for child in it: children
            invariant
                atoms == expression.deep_view(),
                forms == atoms_of_all(it.seq()),
                fill_from(forms, it.index() as int, fill) == fill_of(atoms),
        {
            assert(forms[it.index() as int] == child.deep_view());
            match keyword_of(&child) {
                None => {},
                Some(keyword) => {
                    if same_text(keyword.as_str(), "type") {
                        match word_of(&child, 2) {
                            Some(word) => {
                                fill.fill_type = Some(KiCadFillType::from_str(word.as_str())?);
                            },
                            None => {
                                return Err(ParseError::value("type"));
                            },
                        }
                    } else {
                        return Err(ParseError::Schema { form: "fill".to_owned(), keyword });
                    }
                },
            }
        }
        Ok(fill)
    }
}

/// A point as the contracts see it.
pub struct PointModel {
    pub x: Seq<char>,
    pub y: Seq<char>,
}

/// A point of the plane.
#[derive(Debug, Clone)]
pub struct KiCad2DPoint {
    pub x: Number,
    pub y: Number,
}

impl DeepView for KiCad2DPoint {
    type V = PointModel;

    open spec fn deep_view(&self) -> PointModel {
        PointModel { x: self.x.deep_view(), y: self.y.deep_view() }
    }
}

/// A point written as `(xy x y)`.
#[derive(Debug, Clone)]
pub struct KiCadXY(pub KiCad2DPoint);

impl DeepView for KiCadXY {
    type V = PointModel;

    open spec fn deep_view(&self) -> PointModel {
        self.0.deep_view()
    }
}

/// The corners of a line, in the order in which it runs through them.
pub type KiCadPolylinePts = Vec<KiCadXY>;

/// The points after one more child. `xy` carries two numbers as the child's
/// third and fourth token; a child without a keyword changes nothing; any
/// other keyword is refused.
pub open spec fn points_with(points: Seq<PointModel>, child: Seq<Atom>) -> Result<
    Seq<PointModel>,
    Fault,
> {
    match word_at(child, 1) {
        None => Ok(points),
        Some(keyword) => if keyword == "xy"@ {
            match (number_at(child, 2), number_at(child, 3)) {
                (Some(x), Some(y)) => Ok(points.push(PointModel { x, y })),
                _ => Err(Fault::Value { field: "xy"@ }),
            }
        } else {
            Err(Fault::Schema { form: "pts"@, keyword })
        },
    }
}

/// The points after the children from `at` on, read in order up to the
/// first that fails.
pub open spec fn points_from(children: Seq<Seq<Atom>>, at: int, points: Seq<PointModel>) -> Result<
    Seq<PointModel>,
    Fault,
>
    decreases children.len() - at,
{
    if at < 0 || at >= children.len() {
        Ok(points)
    } else {
        match points_with(points, children[at]) {
            Ok(next) => points_from(children, at + 1, next),
            Err(fault) => Err(fault),
        }
    }
}

/// What `(pts (xy x y) ...)` stands for.
pub open spec fn points_of(expression: Seq<Atom>) -> Result<Seq<PointModel>, Fault> {
    if !opens_with(expression, "pts"@) {
        Err(Fault::Structure { form: "pts"@ })
    } else {
        points_from(children_of(expression, 2), 0, Seq::empty())
    }
}

impl TryFromExpression<KiCadPolylinePts> for KiCadPolylinePts {
    open spec fn meaning(expression: Seq<Atom>) -> Result<Seq<PointModel>, Fault> {
        points_of(expression)
    }

    fn try_from_expression(expression: Expression) -> (outcome: Result<
        KiCadPolylinePts,
        ParseError,
    >) {
        let ghost atoms = expression.deep_view();
        check_expression_validity(&expression, "pts".to_owned())?;
        let children = children_from(expression, 2);
        let ghost forms = children.deep_view();
        assert(forms =~= atoms_of_all(children@));
        let mut points: Vec<KiCadXY> = Vec::new();
        assert(points.deep_view() =~= Seq::<PointModel>::empty());
        for child in it: children
            invariant
                atoms == expression.deep_view(),
                forms == atoms_of_all(it.seq()),
                points_from(forms, it.index() as int, points.deep_view()) == points_of(atoms),
        {
            assert(forms[it.index() as int] == child.deep_view());
            let ghost before = points.deep_view();
            match keyword_of(&child) {
                None => {},
                Some(keyword) => {
                    if same_text(keyword.as_str(), "xy") {
                        let x = number_of(&child, 2);
                        let y = number_of(&child, 3);
                        match (x, y) {
                            (Some(x), Some(y)) => {
                                let point = KiCadXY(KiCad2DPoint { x, y });
                                points.push(point);
                                assert(points.deep_view() =~= before.push(point.deep_view()));
                            },
                            _ => {
                                return Err(ParseError::value("xy"));
                            },
                        }
                    } else {
                        return Err(ParseError::Schema { form: "pts".to_owned(), keyword });
                    }
                },
            }
        }
        Ok(points)
    }
}

/// A line as the contracts see it.
pub struct PolylineModel {
    pub pts: Seq<PointModel>,
    pub stroke: Option<StrokeModel>,
    pub fill: Option<KiCadFill>,
}

/// A line through a list of points, with its stroke and fill.
#[derive(Debug, Clone)]
pub struct KiCadPolyline {
    pub pts: Vec<KiCadXY>,
    pub stroke: Option<KiCadStroke>,
    pub fill: Option<KiCadFill>,
}

impl DeepView for KiCadPolyline {
    type V = PolylineModel;

    open spec fn deep_view(&self) -> PolylineModel {
        PolylineModel {
            pts: self.pts.deep_view(),
            stroke: self.stroke.deep_view(),
            fill: self.fill,
        }
    }
}

/// The line after one more child. `pts` replaces the points, `stroke` sets
/// the stroke and `fill` the fill; a child without a keyword changes
/// nothing; any other keyword is refused.
pub open spec fn polyline_with(line: PolylineModel, child: Seq<Atom>) -> Result<
    PolylineModel,
    Fault,
> {
    match word_at(child, 1) {
        None => Ok(line),
        Some(keyword) => if keyword == "pts"@ {
            match points_of(child) {
                Ok(pts) => Ok(PolylineModel { pts, ..line }),
                Err(fault) => Err(fault),
            }
        } else if keyword == "stroke"@ {
            match stroke_of(child) {
                Ok(stroke) => Ok(PolylineModel { stroke: Some(stroke), ..line }),
                Err(fault) => Err(fault),
            }
        } else if keyword == "fill"@ {
            match fill_of(child) {
                Ok(fill) => Ok(PolylineModel { fill: Some(fill), ..line }),
                Err(fault) => Err(fault),
            }
        } else {
            Err(Fault::Schema { form: "polyline"@, keyword })
        },
    }
}

/// The line after the children from `at` on, read in order up to the first
/// that fails.
pub open spec fn polyline_from(children: Seq<Seq<Atom>>, at: int, line: PolylineModel) -> Result<
    PolylineModel,
    Fault,
>
    decreases children.len() - at,
{
    if at < 0 || at >= children.len() {
        Ok(line)
    } else {
        match polyline_with(line, children[at]) {
            Ok(next) => polyline_from(children, at + 1, next),
            Err(fault) => Err(fault),
        }
    }
}

/// What `(polyline child ...)` stands for.
pub open spec fn polyline_of(expression: Seq<Atom>) -> Result<PolylineModel, Fault> {
    if !opens_with(expression, "polyline"@) {
        Err(Fault::Structure { form: "polyline"@ })
    } else {
        polyline_from(
            children_of(expression, 2),
            0,
            PolylineModel { pts: Seq::empty(), stroke: None, fill: None },
        )
    }
}

impl TryFromExpression<KiCadPolyline> for KiCadPolyline {
    open spec fn meaning(expression: Seq<Atom>) -> Result<PolylineModel, Fault> {
        polyline_of(expression)
    }

    fn try_from_expression(expression: Expression) -> (outcome: Result<KiCadPolyline, ParseError>) {
        let ghost atoms = expression.deep_view();
        check_expression_validity(&expression, "polyline".to_owned())?;
        let children = children_from(expression, 2);
        let ghost forms = children.deep_view();
        assert(forms =~= atoms_of_all(children@));
        let mut line = KiCadPolyline { pts: Vec::new(), stroke: None, fill: None };
        assert(line.pts.deep_view() =~= Seq::<PointModel>::empty());
        for child in it: children
            invariant
                atoms == expression.deep_view(),
                forms == atoms_of_all(it.seq()),
                polyline_from(forms, it.index() as int, line.deep_view()) == polyline_of(atoms),
        {
            assert(forms[it.index() as int] == child.deep_view());
            match keyword_of(&child) {
                None => {},
                Some(keyword) => {
                    if same_text(keyword.as_str(), "pts") {
                        line.pts = KiCadPolylinePts::try_from_expression(child)?;
                    } else if same_text(keyword.as_str(), "stroke") {
                        line.stroke = Some(KiCadStroke::try_from_expression(child)?);
                    } else if same_text(keyword.as_str(), "fill") {
                        line.fill = Some(KiCadFill::try_from_expression(child)?);
                    } else {
                        return Err(ParseError::Schema { form: "polyline".to_owned(), keyword });
                    }
                },
            }
        }
        Ok(line)
    }
}

/// A text as the contracts see it.
pub struct TextModel {
    pub text: Seq<char>,
    pub location: (Seq<char>, Seq<char>, Seq<char>),
    pub effects: Option<EffectsModel>,
}

/// A text drawn at a place.
#[derive(Debug, Clone)]
pub struct KiCadText {
    pub text: String,
    pub location: KiCadLocation,
    pub effects: Option<KiCadEffects>,
}

impl DeepView for KiCadText {
    type V = TextModel;

    open spec fn deep_view(&self) -> TextModel {
        TextModel {
            text: self.text@,
            location: self.location.deep_view(),
            effects: self.effects.deep_view(),
        }
    }
}

/// What has been found of a text while its children are read.
pub struct TextParts {
    pub location: Option<(Seq<char>, Seq<char>, Seq<char>)>,
    pub effects: Option<EffectsModel>,
}

/// The parts after one more child. `at` sets the place and `effects` the
/// effects; a child without a keyword changes nothing; any other keyword is
/// refused.
pub open spec fn text_with(parts: TextParts, child: Seq<Atom>) -> Result<TextParts, Fault> {
    match word_at(child, 1) {
        None => Ok(parts),
        Some(keyword) => if keyword == "effects"@ {
            match effects_of(child) {
                Ok(effects) => Ok(TextParts { effects: Some(effects), ..parts }),
                Err(fault) => Err(fault),
            }
        } else if keyword == "at"@ {
            match location_of(child) {
                Ok(location) => Ok(TextParts { location: Some(location), ..parts }),
                Err(fault) => Err(fault),
            }
        } else {
            Err(Fault::Schema { form: "text"@, keyword })
        },
    }
}

/// The parts after the children from `at` on, read in order up to the first
/// that fails.
pub open spec fn text_from(children: Seq<Seq<Atom>>, at: int, parts: TextParts) -> Result<
    TextParts,
    Fault,
>
    decreases children.len() - at,
{
    if at < 0 || at >= children.len() {
        Ok(parts)
    } else {
        match text_with(parts, children[at]) {
            Ok(next) => text_from(children, at + 1, next),
            Err(fault) => Err(fault),
        }
    }
}

/// What `(text "content" child ...)` stands for. The content is the third
/// token and has to be a word. A text without a place is malformed.
pub open spec fn text_of(expression: Seq<Atom>) -> Result<TextModel, Fault> {
    if !opens_with(expression, "text"@) {
        Err(Fault::Structure { form: "text"@ })
    } else {
        match word_at(expression, 2) {
            None => Err(Fault::Value { field: "text"@ }),
            Some(text) => match text_from(
                children_of(expression, 3),
                0,
                TextParts { location: None, effects: None },
            ) {
                Err(fault) => Err(fault),
                Ok(parts) => match parts.location {
                    Some(location) => Ok(TextModel { text, location, effects: parts.effects }),
                    None => Err(Fault::Structure { form: "text"@ }),
                },
            },
        }
    }
}

impl TryFromExpression<KiCadText> for KiCadText {
    open spec fn meaning(expression: Seq<Atom>) -> Result<TextModel, Fault> {
        text_of(expression)
    }

    #[verifier::loop_isolation(false)]
    fn try_from_expression(expression: Expression) -> (outcome: Result<KiCadText, ParseError>) {
        let ghost atoms = expression.deep_view();
        check_expression_validity(&expression, "text".to_owned())?;
        let text = match word_of(&expression, 2) {
            Some(word) => word.clone(),
            None => {
                return Err(ParseError::value("text"));
            },
        };
        let children = children_from(expression, 3);
        let ghost forms = children.deep_view();
        assert(forms =~= atoms_of_all(children@));
        let mut location: Option<KiCadLocation> = None;
        let mut effects: Option<KiCadEffects> = None;
        for child in it: children
            invariant
                atoms == expression.deep_view(),
                forms == atoms_of_all(it.seq()),
                text_from(
                    forms,
                    it.index() as int,
                    TextParts { location: location.deep_view(), effects: effects.deep_view() },
                ) == text_from(forms, 0, TextParts { location: None, effects: None }),
        {
            assert(forms[it.index() as int] == child.deep_view());
            match keyword_of(&child) {
                None => {},
                Some(keyword) => {
                    if same_text(keyword.as_str(), "effects") {
                        effects = Some(KiCadEffects::try_from_expression(child)?);
                    } else if same_text(keyword.as_str(), "at") {
                        location = Some(KiCadLocation::try_from_expression(child)?);
                    } else {
                        return Err(ParseError::Schema { form: "text".to_owned(), keyword });
                    }
                },
            }
        }
        match location {
            Some(location) => Ok(KiCadText { text, location, effects }),
            None => Err(ParseError::structural("text")),
        }
    }
}

} // verus!
