//! An XML document as a list of nodes in document order, read with `roxmltree`,
//! and the reading of typed fields from an element's attributes.
use crate::text::{
    decimal, decimal_i8, bool_value, parse_i8, parse_u8, spec_parse_bool, spec_parse_i8, spec_parse_u8,
    spec_split_nonempty, split_nonempty, str_eq, IntErrorKind,
};
use vstd::prelude::*;

verus! {

/// One attribute of an element: its local name and its value.
#[derive(Debug, Clone)]
pub struct XmlAttribute {
    pub name: String,
    pub value: String,
}

/// One node of a document: whether it is an element, its local tag name
/// (empty for other nodes), its attributes in document order, and the index of
/// its parent node (none for the document root).
#[derive(Debug)]
pub struct XmlNode {
    pub is_element: bool,
    pub name: String,
    pub attributes: Vec<XmlAttribute>,
    pub parent: Option<usize>,
}

/// The nodes of a document in document order; the first one is the document root.
/// The element children of node `i` are the element nodes after `i` whose parent is `i`.
#[derive(Debug)]
pub struct XmlDocument {
    pub nodes: Vec<XmlNode>,
}

/// What the parsers read of a node.
pub struct NodeView {
    pub is_element: bool,
    pub name: Seq<char>,
    pub attributes: Seq<(Seq<char>, Seq<char>)>,
    pub parent: Option<int>,
}

impl XmlAttribute {
    pub open spec fn pair(&self) -> (Seq<char>, Seq<char>) {
        (self.name@, self.value@)
    }
}

pub open spec fn attribute_pairs(attrs: Seq<XmlAttribute>) -> Seq<(Seq<char>, Seq<char>)> {
    attrs.map_values(|a: XmlAttribute| a.pair())
}

impl View for XmlNode {
    type V = NodeView;

    open spec fn view(&self) -> NodeView {
        NodeView {
            is_element: self.is_element,
            name: self.name@,
            attributes: attribute_pairs(self.attributes@),
            parent: match self.parent {
                Some(p) => Some(p as int),
                None => None,
            },
        }
    }
}

impl View for XmlDocument {
    type V = Seq<NodeView>;

    open spec fn view(&self) -> Seq<NodeView> {
        self.nodes@.map_values(|n: XmlNode| n@)
    }
}

/// Why a project file could not be read.
#[derive(Debug, Clone)]
pub enum XmlError {
    /// The text is not well-formed XML; the message of the XML reader.
    Document(String),
    /// The document has no element.
    NoRootElement,
    /// The root element is not `VisualStudioProject`.
    UnexpectedRoot,
    /// An attribute that the element does not take.
    UnexpectedAttribute { context: String, name: String, value: String },
    /// A required attribute is absent.
    MissingAttribute { context: String, name: String },
    /// An attribute value is not a decimal integer of the field's type.
    InvalidInteger { value: String, kind: IntErrorKind },
    /// An attribute value is not one of the boolean spellings.
    InvalidBool { value: String },
    /// A child element that `parent` does not take.
    UnexpectedTag { parent: String, tag: String },
    /// An element that must have no element children has some.
    ExpectedEmpty { tag: String },
    /// A required child element is absent.
    MissingChild { parent: String, child: String },
    /// A number that names no flag of the setting `name`.
    InvalidFlag { name: String, value: i8 },
}

/// The mathematical content of an [`XmlError`].
pub enum XmlErrorModel {
    Document(Seq<char>),
    NoRootElement,
    UnexpectedRoot,
    UnexpectedAttribute { context: Seq<char>, name: Seq<char>, value: Seq<char> },
    MissingAttribute { context: Seq<char>, name: Seq<char> },
    InvalidInteger { value: Seq<char>, kind: IntErrorKind },
    InvalidBool { value: Seq<char> },
    UnexpectedTag { parent: Seq<char>, tag: Seq<char> },
    ExpectedEmpty { tag: Seq<char> },
    MissingChild { parent: Seq<char>, child: Seq<char> },
    InvalidFlag { name: Seq<char>, value: i8 },
}

impl View for XmlError {
    type V = XmlErrorModel;

    open spec fn view(&self) -> XmlErrorModel {
        match self {
            XmlError::Document(m) => XmlErrorModel::Document(m@),
            XmlError::NoRootElement => XmlErrorModel::NoRootElement,
            XmlError::UnexpectedRoot => XmlErrorModel::UnexpectedRoot,
            XmlError::UnexpectedAttribute { context, name, value } =>
                XmlErrorModel::UnexpectedAttribute {
                context: context@,
                name: name@,
                value: value@,
            },
            XmlError::MissingAttribute { context, name } => XmlErrorModel::MissingAttribute {
                context: context@,
                name: name@,
            },
            XmlError::InvalidInteger { value, kind } => XmlErrorModel::InvalidInteger {
                value: value@,
                kind: *kind,
            },
            XmlError::InvalidBool { value } => XmlErrorModel::InvalidBool { value: value@ },
            XmlError::UnexpectedTag { parent, tag } => XmlErrorModel::UnexpectedTag {
                parent: parent@,
                tag: tag@,
            },
            XmlError::ExpectedEmpty { tag } => XmlErrorModel::ExpectedEmpty { tag: tag@ },
            XmlError::MissingChild { parent, child } => XmlErrorModel::MissingChild {
                parent: parent@,
                child: child@,
            },
            XmlError::InvalidFlag { name, value } => XmlErrorModel::InvalidFlag {
                name: name@,
                value: *value,
            },
        }
    }
}

/// How the reason of an integer that does not read is told.
pub open spec fn int_error_text(k: IntErrorKind) -> Seq<char> {
    match k {
        IntErrorKind::Empty => "cannot parse integer from empty string"@,
        IntErrorKind::InvalidDigit => "invalid digit found in string"@,
        IntErrorKind::PosOverflow => "number too large to fit in target type"@,
        IntErrorKind::NegOverflow => "number too small to fit in target type"@,
    }
}

/// The message that tells the error `e`.
pub open spec fn xml_error_message(e: XmlErrorModel) -> Seq<char> {
    match e {
        XmlErrorModel::Document(m) => m,
        XmlErrorModel::NoRootElement => "The document has no root element"@,
        XmlErrorModel::UnexpectedRoot => "Expected 'VisualStudioProject' as a root object"@,
        XmlErrorModel::UnexpectedAttribute { context, name, value } => "Unexpected "@ + context
            + " attribute: '"@ + name + "' with value: '"@ + value + "'"@,
        XmlErrorModel::MissingAttribute { context, name } => context + " missing '"@ + name + "'"@,
        XmlErrorModel::InvalidInteger { value, kind } => int_error_text(kind),
        XmlErrorModel::InvalidBool { value } => "Unexpected boolean value: '"@ + value + "'"@,
        XmlErrorModel::UnexpectedTag { parent, tag } => if parent == "VisualStudioProject"@ {
            "Unexpected tag name: '"@ + tag + "'"@
        } else {
            "Unexpected tag in "@ + parent + ": '"@ + tag + "'"@
        },
        XmlErrorModel::ExpectedEmpty { tag } => "Expected '"@ + tag + "' to be empty"@,
        XmlErrorModel::MissingChild { parent, child } => parent + " missing "@ + child,
        XmlErrorModel::InvalidFlag { name, value } => "Invalid "@ + name + " value: "@ + decimal(
            value as int,
        ),
    }
}

/// The message that tells the error `e` as the strict project reader words
/// it: an unexpected attribute without its value, and a boolean value
/// without quotes; every other error as [`xml_error_message`] does.
pub open spec fn strict_error_message(e: XmlErrorModel) -> Seq<char> {
    match e {
        XmlErrorModel::UnexpectedAttribute { context, name, value } => "Unexpected "@ + context
            + " attribute: '"@ + name + "'"@,
        XmlErrorModel::InvalidBool { value } => "Unexpected boolean value: "@ + value,
        _ => xml_error_message(e),
    }
}

fn int_error_message(k: IntErrorKind) -> (r: String)
    ensures
        r@ == int_error_text(k),
{
    match k {
        IntErrorKind::Empty => "cannot parse integer from empty string".to_owned(),
        IntErrorKind::InvalidDigit => "invalid digit found in string".to_owned(),
        IntErrorKind::PosOverflow => "number too large to fit in target type".to_owned(),
        IntErrorKind::NegOverflow => "number too small to fit in target type".to_owned(),
    }
}

impl XmlError {
    /// The message that tells this error, as the strict project reader
    /// (`vcproj_raw`) words it.
    pub fn strict_message(&self) -> (r: String)
        ensures
            r@ == strict_error_message(self@),
    {
        match self {
            XmlError::UnexpectedAttribute { context, name, value: _ } => {
                let mut r = "Unexpected ".to_owned();
                r.append(context.as_str());
                r.append(" attribute: '");
                r.append(name.as_str());
                r.append("'");
                r
            },
            XmlError::InvalidBool { value } => {
                let mut r = "Unexpected boolean value: ".to_owned();
                r.append(value.as_str());
                r
            },
            _ => self.message(),
        }
    }

    /// The message that tells this error, as the project reader with optional
    /// attributes (`vcproj`) words it.
    pub fn message(&self) -> (r: String)
        ensures
            r@ == xml_error_message(self@),
    {
        match self {
            XmlError::Document(m) => m.clone(),
            XmlError::NoRootElement => "The document has no root element".to_owned(),
            XmlError::UnexpectedRoot => "Expected 'VisualStudioProject' as a root object".to_owned(),
            XmlError::UnexpectedAttribute { context, name, value } => {
                let mut r = "Unexpected ".to_owned();
                r.append(context.as_str());
                r.append(" attribute: '");
                r.append(name.as_str());
                r.append("' with value: '");
                r.append(value.as_str());
                r.append("'");
                r
            },
            XmlError::MissingAttribute { context, name } => {
                let mut r = context.clone();
                r.append(" missing '");
                r.append(name.as_str());
                r.append("'");
                r
            },
            XmlError::InvalidInteger { value: _, kind } => int_error_message(*kind),
            XmlError::InvalidBool { value } => {
                let mut r = "Unexpected boolean value: '".to_owned();
                r.append(value.as_str());
                r.append("'");
                r
            },
            XmlError::UnexpectedTag { parent, tag } => {
                if str_eq(parent.as_str(), "VisualStudioProject") {
                    let mut r = "Unexpected tag name: '".to_owned();
                    r.append(tag.as_str());
                    r.append("'");
                    r
                } else {
                    let mut r = "Unexpected tag in ".to_owned();
                    r.append(parent.as_str());
                    r.append(": '");
                    r.append(tag.as_str());
                    r.append("'");
                    r
                }
            },
            XmlError::ExpectedEmpty { tag } => {
                let mut r = "Expected '".to_owned();
                r.append(tag.as_str());
                r.append("' to be empty");
                r
            },
            XmlError::MissingChild { parent, child } => {
                let mut r = parent.clone();
                r.append(" missing ");
                r.append(child.as_str());
                r
            },
            XmlError::InvalidFlag { name, value } => {
                let mut r = "Invalid ".to_owned();
                r.append(name.as_str());
                r.append(" value: ");
                let v = decimal_i8(*value);
                r.append(v.as_str());
                r
            },
        }
    }
}

/// The nodes that `roxmltree` reads from `input`, in document order, or its
/// error message.
pub uninterp spec fn xml_document_nodes(input: Seq<char>) -> Result<Seq<NodeView>, Seq<char>>;

/// Calls `roxmltree::Document::parse` on `input` and lists the document's nodes
/// as `Document::descendants` yields them (the root first, then document order),
/// each with its local tag name, its attributes (local name and value, in order)
/// and the index of its parent node; on failure, the error's message.
/// The contract only names the result: what XML the reader accepts is not restated.
#[verifier::external_body]
fn read_document(input: &str) -> (r: Result<XmlDocument, String>)
    ensures
        match r {
            Ok(d) => xml_document_nodes(input@) == Ok::<Seq<NodeView>, Seq<char>>(d@),
            Err(m) => xml_document_nodes(input@) == Err::<Seq<NodeView>, Seq<char>>(m@),
        },
{
    match roxmltree::Document::parse(input) {
        Ok(doc) => Ok(XmlDocument { nodes: doc.descendants().map(|n| XmlNode {
            is_element: n.is_element(),
            name: n.tag_name().name().to_string(),
            attributes: n.attributes().map(|a| XmlAttribute {
                name: a.name().to_string(),
                value: a.value().to_string(),
            }).collect(),
            parent: n.parent().map(|p| p.id().get_usize()),
        }).collect() }),
        Err(e) => Err(e.to_string()),
    }
}

pub open spec fn spec_parse_document(input: Seq<char>) -> Result<Seq<NodeView>, XmlErrorModel> {
    match xml_document_nodes(input) {
        Ok(d) => Ok(d),
        Err(m) => Err(XmlErrorModel::Document(m)),
    }
}

impl XmlDocument {
    /// Reads the XML text `input`.
    pub fn parse(input: &str) -> (r: Result<XmlDocument, XmlError>)
        ensures
            match r {
                Ok(d) => spec_parse_document(input@) == Ok::<Seq<NodeView>, XmlErrorModel>(d@),
                Err(e) => spec_parse_document(input@) == Err::<Seq<NodeView>, XmlErrorModel>(e@),
            },
    {
        match read_document(input) {
            Ok(d) => Ok(d),
            Err(m) => Err(XmlError::Document(m)),
        }
    }
}

/// Node `j` is an element child of node `i`.
pub open spec fn is_child_element(d: Seq<NodeView>, i: int, j: int) -> bool {
    &&& i < j < d.len()
    &&& d[j].is_element
    &&& d[j].parent == Some(i)
}

/// The element children of node `i` at index `from` or later, in document order.
pub open spec fn child_elements(d: Seq<NodeView>, i: int, from: int) -> Seq<int>
    decreases d.len() - from,
{
    if from < 0 || from >= d.len() {
        Seq::empty()
    } else if is_child_element(d, i, from) {
        seq![from] + child_elements(d, i, from + 1)
    } else {
        child_elements(d, i, from + 1)
    }
}

/// The element children of node `i`, in document order.
pub open spec fn children_of(d: Seq<NodeView>, i: int) -> Seq<int> {
    child_elements(d, i, i + 1)
}

/// The document's root element: the first element child of the document root.
pub open spec fn root_element(d: Seq<NodeView>) -> Option<int> {
    if d.len() > 0 && children_of(d, 0).len() > 0 {
        Some(children_of(d, 0)[0])
    } else {
        None
    }
}

pub proof fn lemma_child_elements_bounds(d: Seq<NodeView>, i: int, from: int)
    ensures
        forall|k: int|
            0 <= k < child_elements(d, i, from).len() ==> {
                let j = #[trigger] child_elements(d, i, from)[k];
                &&& from <= j
                &&& is_child_element(d, i, j)
            },
    decreases d.len() - from,
{
    if !(from < 0 || from >= d.len()) {
        lemma_child_elements_bounds(d, i, from + 1);
        if !is_child_element(d, i, from) {
            assert(child_elements(d, i, from) == child_elements(d, i, from + 1));
        } else {
            assert forall|k: int| 0 <= k < child_elements(d, i, from).len() implies {
                let j = #[trigger] child_elements(d, i, from)[k];
                &&& from <= j
                &&& is_child_element(d, i, j)
            } by {
                if k > 0 {
                    assert(child_elements(d, i, from)[k] == child_elements(d, i, from + 1)[k - 1]);
                }
            }
        }
    }
}

impl XmlDocument {
    /// The first element child of node `i` at index `from` or later.
    pub fn next_child(&self, i: usize, from: usize) -> (r: Option<usize>)
        requires
            i < from,
        ensures
            match r {
                None => child_elements(self@, i as int, from as int) == Seq::<int>::empty(),
                Some(j) => {
                    &&& from <= j
                    &&& is_child_element(self@, i as int, j as int)
                    &&& child_elements(self@, i as int, from as int) == seq![j as int]
                        + child_elements(self@, i as int, j + 1)
                },
            },
    {
        let n: usize = self.nodes.len();
        let mut j: usize = from;
        while j < n
            invariant
                n == self@.len(),
                i < from <= j,
                child_elements(self@, i as int, from as int) == child_elements(
                    self@,
                    i as int,
                    j as int,
                ),
            decreases n - j,
        {
            let node = &self.nodes[j];
            proof {
                assert(self@[j as int] == node@);
            }
            match node.parent {
                Some(p) => {
                    if node.is_element && p == i {
                        return Some(j);
                    }
                },
                None => {},
            }
            j = j + 1;
        }
        None
    }

    /// The document's root element.
    pub fn root_element(&self) -> (r: Option<usize>)
        ensures
            r == (match root_element(self@) {
                Some(j) => Some(j as usize),
                None => None::<usize>,
            }),
            r matches Some(j) ==> (j as int) < self@.len() && j as int == root_element(
                self@,
            ).unwrap(),
    {
        if self.nodes.len() == 0 {
            return None;
        }
        match self.next_child(0, 1) {
            Some(j) => Some(j),
            None => None,
        }
    }

    /// Whether node `i` has an element child.
    pub fn has_element_child(&self, i: usize) -> (r: bool)
        ensures
            r == (children_of(self@, i as int).len() > 0),
    {
        let n: usize = self.nodes.len();
        assert(self@.len() == n);
        if i == usize::MAX {
            assert(children_of(self@, i as int) =~= Seq::<int>::empty());
            return false;
        }
        self.next_child(i, i + 1).is_some()
    }
}

/// The value of the last attribute called `name`, if any.
pub open spec fn last_value(attrs: Seq<(Seq<char>, Seq<char>)>, name: Seq<char>) -> Option<
    Seq<char>,
>
    decreases attrs.len(),
{
    if attrs.len() == 0 {
        None
    } else if attrs.last().0 == name {
        Some(attrs.last().1)
    } else {
        last_value(attrs.drop_last(), name)
    }
}

/// The value of the first attribute called `name`, if any.
pub open spec fn first_value(attrs: Seq<(Seq<char>, Seq<char>)>, name: Seq<char>) -> Option<
    Seq<char>,
>
    decreases attrs.len(),
{
    if attrs.len() == 0 {
        None
    } else if attrs[0].0 == name {
        Some(attrs[0].1)
    } else {
        first_value(attrs.skip(1), name)
    }
}

/// The type that an attribute's value is read as.
#[derive(Clone, Copy, Debug, PartialEq, Eq, Structural)]
pub enum FieldKind {
    /// The text as it is.
    Text,
    /// The non-empty pieces between `;`.
    List,
    /// A boolean spelling.
    Bool,
    /// A decimal `u8`.
    U8,
    /// A decimal `i8`.
    I8,
}

/// An attribute that an element takes: its name, its type, and whether it must be there.
pub struct FieldDesc {
    pub name: &'static str,
    pub kind: FieldKind,
    pub required: bool,
}

pub struct FieldSpec {
    pub name: Seq<char>,
    pub kind: FieldKind,
    pub required: bool,
}

impl FieldDesc {
    pub open spec fn spec(&self) -> FieldSpec {
        FieldSpec { name: self.name@, kind: self.kind, required: self.required }
    }
}

pub open spec fn field_specs(s: Seq<FieldDesc>) -> Seq<FieldSpec> {
    s.map_values(|f: FieldDesc| f.spec())
}

pub open spec fn str_views(s: Seq<&str>) -> Seq<Seq<char>> {
    s.map_values(|x: &str| x@)
}

/// The value read from one attribute; `None` where the attribute is absent.
pub enum FieldValueModel {
    Text(Option<Seq<char>>),
    List(Option<Seq<Seq<char>>>),
    Bool(Option<bool>),
    U8(Option<u8>),
    I8(Option<i8>),
}

/// The value read from one attribute; `None` where the attribute is absent.
#[derive(Debug)]
pub enum FieldValue {
    Text(Option<String>),
    List(Option<Vec<String>>),
    Bool(Option<bool>),
    U8(Option<u8>),
    I8(Option<i8>),
}

impl View for FieldValue {
    type V = FieldValueModel;

    open spec fn view(&self) -> FieldValueModel {
        match self {
            FieldValue::Text(x) => FieldValueModel::Text(x.deep_view()),
            FieldValue::List(x) => FieldValueModel::List(x.deep_view()),
            FieldValue::Bool(x) => FieldValueModel::Bool(*x),
            FieldValue::U8(x) => FieldValueModel::U8(*x),
            FieldValue::I8(x) => FieldValueModel::I8(*x),
        }
    }
}

pub open spec fn field_values_view(s: Seq<FieldValue>) -> Seq<FieldValueModel> {
    s.map_values(|v: FieldValue| v@)
}

/// An element takes an attribute called `name`: the empty name, a name to skip,
/// or the name of one of its fields.
pub open spec fn is_expected(schema: Seq<FieldSpec>, ignore: Seq<Seq<char>>, name: Seq<char>) -> bool {
    name.len() == 0 || ignore.contains(name) || exists|k: int|
        0 <= k < schema.len() && #[trigger] schema[k].name == name
}

/// The first of the first `n` attributes that the element does not take.
pub open spec fn first_unexpected(
    attrs: Seq<(Seq<char>, Seq<char>)>,
    schema: Seq<FieldSpec>,
    ignore: Seq<Seq<char>>,
    n: int,
) -> Option<(Seq<char>, Seq<char>)>
    decreases n,
{
    if n <= 0 {
        None
    } else {
        match first_unexpected(attrs, schema, ignore, n - 1) {
            Some(a) => Some(a),
            None => if is_expected(schema, ignore, attrs[n - 1].0) {
                None
            } else {
                Some(attrs[n - 1])
            },
        }
    }
}

/// The name of the first of the first `n` fields that is required and absent.
pub open spec fn first_missing(
    attrs: Seq<(Seq<char>, Seq<char>)>,
    schema: Seq<FieldSpec>,
    n: int,
) -> Option<Seq<char>>
    decreases n,
{
    if n <= 0 {
        None
    } else {
        match first_missing(attrs, schema, n - 1) {
            Some(a) => Some(a),
            None => if schema[n - 1].required && last_value(attrs, schema[n - 1].name) is None {
                Some(schema[n - 1].name)
            } else {
                None
            },
        }
    }
}

/// The value of an absent attribute of type `kind`.
pub open spec fn absent_value(kind: FieldKind) -> FieldValueModel {
    match kind {
        FieldKind::Text => FieldValueModel::Text(None),
        FieldKind::List => FieldValueModel::List(None),
        FieldKind::Bool => FieldValueModel::Bool(None),
        FieldKind::U8 => FieldValueModel::U8(None),
        FieldKind::I8 => FieldValueModel::I8(None),
    }
}

/// Reads the raw value `s` as type `kind`.
pub open spec fn convert_value(kind: FieldKind, s: Seq<char>) -> Result<FieldValueModel, XmlErrorModel> {
    match kind {
        FieldKind::Text => Ok(FieldValueModel::Text(Some(s))),
        FieldKind::List => Ok(FieldValueModel::List(Some(spec_split_nonempty(s, ';')))),
        FieldKind::Bool => match spec_parse_bool(s) {
            Some(b) => Ok(FieldValueModel::Bool(Some(b))),
            None => Err(XmlErrorModel::InvalidBool { value: s }),
        },
        FieldKind::U8 => match spec_parse_u8(s) {
            Ok(v) => Ok(FieldValueModel::U8(Some(v))),
            Err(k) => Err(XmlErrorModel::InvalidInteger { value: s, kind: k }),
        },
        FieldKind::I8 => match spec_parse_i8(s) {
            Ok(v) => Ok(FieldValueModel::I8(Some(v))),
            Err(k) => Err(XmlErrorModel::InvalidInteger { value: s, kind: k }),
        },
    }
}

/// Reads field `f` from the attributes.
pub open spec fn convert_field(attrs: Seq<(Seq<char>, Seq<char>)>, f: FieldSpec) -> Result<
    FieldValueModel,
    XmlErrorModel,
> {
    match last_value(attrs, f.name) {
        None => Ok(absent_value(f.kind)),
        Some(s) => convert_value(f.kind, s),
    }
}

/// Reads the first `n` fields in order, stopping at the first value that does not read.
pub open spec fn convert_fields(
    attrs: Seq<(Seq<char>, Seq<char>)>,
    schema: Seq<FieldSpec>,
    n: int,
) -> Result<Seq<FieldValueModel>, XmlErrorModel>
    decreases n,
{
    if n <= 0 {
        Ok(Seq::empty())
    } else {
        match convert_fields(attrs, schema, n - 1) {
            Err(e) => Err(e),
            Ok(vs) => match convert_field(attrs, schema[n - 1]) {
                Err(e) => Err(e),
                Ok(v) => Ok(vs.push(v)),
            },
        }
    }
}

/// The attributes of `attrs` whose names are not skipped, in order.
pub open spec fn kept_attributes(attrs: Seq<(Seq<char>, Seq<char>)>, ignore: Seq<Seq<char>>) -> Seq<
    (Seq<char>, Seq<char>),
> {
    attrs.filter(|a: (Seq<char>, Seq<char>)| !ignore.contains(a.0))
}

/// Reads the fields `schema` of an element called `context` from its attributes:
/// an attribute it does not take is an error, then a required field that is
/// absent, then a value that does not read as its field's type; otherwise the
/// values in the order of `schema`. An attribute with a skipped name never
/// gives a field its value.
pub open spec fn spec_read_fields(
    attrs: Seq<(Seq<char>, Seq<char>)>,
    context: Seq<char>,
    schema: Seq<FieldSpec>,
    ignore: Seq<Seq<char>>,
) -> Result<Seq<FieldValueModel>, XmlErrorModel> {
    match first_unexpected(attrs, schema, ignore, attrs.len() as int) {
        Some(a) => Err(
            XmlErrorModel::UnexpectedAttribute { context: context, name: a.0, value: a.1 },
        ),
        None => match first_missing(kept_attributes(attrs, ignore), schema, schema.len() as int) {
            Some(name) => Err(XmlErrorModel::MissingAttribute { context: context, name: name }),
            None => convert_fields(kept_attributes(attrs, ignore), schema, schema.len() as int),
        },
    }
}

/// The value has the type of `kind`, and is present where `required`.
pub open spec fn value_fits(v: FieldValueModel, kind: FieldKind, required: bool) -> bool {
    match v {
        FieldValueModel::Text(x) => kind == FieldKind::Text && (required ==> x is Some),
        FieldValueModel::List(x) => kind == FieldKind::List && (required ==> x is Some),
        FieldValueModel::Bool(x) => kind == FieldKind::Bool && (required ==> x is Some),
        FieldValueModel::U8(x) => kind == FieldKind::U8 && (required ==> x is Some),
        FieldValueModel::I8(x) => kind == FieldKind::I8 && (required ==> x is Some),
    }
}

proof fn lemma_missing_prefix(attrs: Seq<(Seq<char>, Seq<char>)>, schema: Seq<FieldSpec>, m: int, n: int)
    requires
        0 <= m <= n,
        first_missing(attrs, schema, n) is None,
    ensures
        first_missing(attrs, schema, m) is None,
    decreases n - m,
{
    if m < n {
        lemma_missing_prefix(attrs, schema, m, n - 1);
    }
}

/// Values read in order have their fields' types, and required ones are present.
pub proof fn lemma_read_fields_fit(
    attrs: Seq<(Seq<char>, Seq<char>)>,
    schema: Seq<FieldSpec>,
    n: int,
)
    requires
        0 <= n <= schema.len(),
        first_missing(attrs, schema, schema.len() as int) is None,
        convert_fields(attrs, schema, n) is Ok,
    ensures
        convert_fields(attrs, schema, n)->Ok_0.len() == n,
        forall|k: int|
            0 <= k < n ==> value_fits(
                #[trigger] convert_fields(attrs, schema, n)->Ok_0[k],
                schema[k].kind,
                schema[k].required,
            ),
    decreases n,
{
    if n > 0 {
        lemma_read_fields_fit(attrs, schema, n - 1);
        lemma_missing_prefix(attrs, schema, n, schema.len() as int);
        let vs = convert_fields(attrs, schema, n - 1)->Ok_0;
        assert forall|k: int| 0 <= k < n implies value_fits(
            #[trigger] convert_fields(attrs, schema, n)->Ok_0[k],
            schema[k].kind,
            schema[k].required,
        ) by {
            if k < n - 1 {
                assert(convert_fields(attrs, schema, n)->Ok_0[k] == vs[k]);
            }
        }
    }
}

/// The values read for an element have their fields' types, and required ones are present.
pub proof fn lemma_fields_fit(
    attrs: Seq<(Seq<char>, Seq<char>)>,
    context: Seq<char>,
    schema: Seq<FieldSpec>,
    ignore: Seq<Seq<char>>,
    vals: Seq<FieldValue>,
)
    requires
        spec_read_fields(attrs, context, schema, ignore) == Ok::<
            Seq<FieldValueModel>,
            XmlErrorModel,
        >(field_values_view(vals)),
    ensures
        vals.len() == schema.len(),
        forall|k: int|
            0 <= k < schema.len() ==> value_fits(
                #[trigger] vals[k]@,
                schema[k].kind,
                schema[k].required,
            ),
{
    lemma_read_fields_fit(kept_attributes(attrs, ignore), schema, schema.len() as int);
    assert forall|k: int| 0 <= k < schema.len() implies value_fits(
        #[trigger] vals[k]@,
        schema[k].kind,
        schema[k].required,
    ) by {
        assert(field_values_view(vals)[k] == vals[k]@);
    }
}

/// The attributes of `attrs` that are not called `name`, in order.
pub open spec fn attributes_without(attrs: Seq<(Seq<char>, Seq<char>)>, name: Seq<char>) -> Seq<
    (Seq<char>, Seq<char>),
> {
    attrs.filter(|a: (Seq<char>, Seq<char>)| a.0 != name)
}

proof fn lemma_without_step(attrs: Seq<(Seq<char>, Seq<char>)>, name: Seq<char>)
    requires
        attrs.len() > 0,
    ensures
        attributes_without(attrs, name) == (if attrs.last().0 == name {
            attributes_without(attrs.drop_last(), name)
        } else {
            attributes_without(attrs.drop_last(), name).push(attrs.last())
        }),
{
    reveal_with_fuel(Seq::filter, 1);
}

proof fn lemma_kept_step(attrs: Seq<(Seq<char>, Seq<char>)>, ignore: Seq<Seq<char>>)
    requires
        attrs.len() > 0,
    ensures
        kept_attributes(attrs, ignore) == (if ignore.contains(attrs.last().0) {
            kept_attributes(attrs.drop_last(), ignore)
        } else {
            kept_attributes(attrs.drop_last(), ignore).push(attrs.last())
        }),
{
    reveal_with_fuel(Seq::filter, 1);
}

/// A field takes its value from the last attribute with its name, unless the
/// name is skipped.
proof fn lemma_last_value_kept(attrs: Seq<(Seq<char>, Seq<char>)>, ignore: Seq<Seq<char>>, name: Seq<char>)
    ensures
        last_value(kept_attributes(attrs, ignore), name) == (if ignore.contains(name) {
            None
        } else {
            last_value(attrs, name)
        }),
    decreases attrs.len(),
{
    reveal_with_fuel(Seq::filter, 1);
    if attrs.len() > 0 {
        lemma_kept_step(attrs, ignore);
        lemma_last_value_kept(attrs.drop_last(), ignore, name);
        let k = kept_attributes(attrs.drop_last(), ignore);
        if !ignore.contains(attrs.last().0) {
            assert(k.push(attrs.last()).drop_last() =~= k);
        }
    }
}

proof fn lemma_kept_without(attrs: Seq<(Seq<char>, Seq<char>)>, ignore: Seq<Seq<char>>, name: Seq<char>)
    requires
        ignore.contains(name),
    ensures
        kept_attributes(attributes_without(attrs, name), ignore) == kept_attributes(attrs, ignore),
    decreases attrs.len(),
{
    reveal_with_fuel(Seq::filter, 1);
    if attrs.len() > 0 {
        lemma_without_step(attrs, name);
        lemma_kept_step(attrs, ignore);
        lemma_kept_without(attrs.drop_last(), ignore, name);
        let w = attributes_without(attrs.drop_last(), name);
        if attrs.last().0 != name {
            assert(w.push(attrs.last()).drop_last() =~= w);
            lemma_kept_step(w.push(attrs.last()), ignore);
        }
    }
}

proof fn lemma_unexpected_push(
    attrs: Seq<(Seq<char>, Seq<char>)>,
    x: (Seq<char>, Seq<char>),
    schema: Seq<FieldSpec>,
    ignore: Seq<Seq<char>>,
    n: int,
)
    requires
        n <= attrs.len(),
    ensures
        first_unexpected(attrs.push(x), schema, ignore, n) == first_unexpected(attrs, schema, ignore, n),
    decreases n,
{
    if n > 0 {
        lemma_unexpected_push(attrs, x, schema, ignore, n - 1);
        assert(attrs.push(x)[n - 1] == attrs[n - 1]);
    }
}

proof fn lemma_unexpected_without(
    attrs: Seq<(Seq<char>, Seq<char>)>,
    schema: Seq<FieldSpec>,
    ignore: Seq<Seq<char>>,
    name: Seq<char>,
)
    requires
        ignore.contains(name),
    ensures
        first_unexpected(
            attributes_without(attrs, name),
            schema,
            ignore,
            attributes_without(attrs, name).len() as int,
        ) == first_unexpected(attrs, schema, ignore, attrs.len() as int),
    decreases attrs.len(),
{
    if attrs.len() > 0 {
        let init = attrs.drop_last();
        let x = attrs.last();
        assert(init.push(x) =~= attrs);
        lemma_without_step(attrs, name);
        lemma_unexpected_without(init, schema, ignore, name);
        lemma_unexpected_push(init, x, schema, ignore, init.len() as int);
        let w = attributes_without(init, name);
        if x.0 != name {
            lemma_unexpected_push(w, x, schema, ignore, w.len() as int);
            assert(w.push(x)[w.len() as int] == x);
        }
    }
}

/// The non-empty pieces between `;` of the last attribute called `name`, if any.
pub open spec fn attr_list(attrs: Seq<(Seq<char>, Seq<char>)>, name: Seq<char>) -> Option<Seq<Seq<char>>> {
    match last_value(attrs, name) {
        None => None,
        Some(v) => Some(spec_split_nonempty(v, ';')),
    }
}

/// The boolean that the last attribute called `name` spells, if any.
pub open spec fn attr_bool(attrs: Seq<(Seq<char>, Seq<char>)>, name: Seq<char>) -> Option<bool> {
    match last_value(attrs, name) {
        None => None,
        Some(v) => spec_parse_bool(v),
    }
}

/// The `u8` written in decimal in the last attribute called `name`, if any.
pub open spec fn attr_u8(attrs: Seq<(Seq<char>, Seq<char>)>, name: Seq<char>) -> Option<u8> {
    match last_value(attrs, name) {
        None => None,
        Some(v) => match spec_parse_u8(v) {
            Ok(x) => Some(x),
            Err(_) => None,
        },
    }
}

/// The `i8` written in decimal in the last attribute called `name`, if any.
pub open spec fn attr_i8(attrs: Seq<(Seq<char>, Seq<char>)>, name: Seq<char>) -> Option<i8> {
    match last_value(attrs, name) {
        None => None,
        Some(v) => match spec_parse_i8(v) {
            Ok(x) => Some(x),
            Err(_) => None,
        },
    }
}

proof fn lemma_convert_fields_at(attrs: Seq<(Seq<char>, Seq<char>)>, schema: Seq<FieldSpec>, n: int)
    requires
        0 <= n <= schema.len(),
        convert_fields(attrs, schema, n) is Ok,
    ensures
        convert_fields(attrs, schema, n)->Ok_0.len() == n,
        forall|k: int|
            0 <= k < n ==> convert_field(attrs, schema[k]) == Ok::<FieldValueModel, XmlErrorModel>(
                #[trigger] convert_fields(attrs, schema, n)->Ok_0[k],
            ),
    decreases n,
{
    if n > 0 {
        lemma_convert_fields_at(attrs, schema, n - 1);
        let vs = convert_fields(attrs, schema, n - 1)->Ok_0;
        assert forall|k: int| 0 <= k < n implies convert_field(attrs, schema[k]) == Ok::<
            FieldValueModel,
            XmlErrorModel,
        >(#[trigger] convert_fields(attrs, schema, n)->Ok_0[k]) by {
            if k < n - 1 {
                assert(convert_fields(attrs, schema, n)->Ok_0[k] == vs[k]);
            }
        }
    }
}

/// When an element's fields read, each value is what its schema entry reads
/// from the attributes whose names are not skipped.
pub proof fn lemma_fields_read(
    attrs: Seq<(Seq<char>, Seq<char>)>,
    context: Seq<char>,
    schema: Seq<FieldSpec>,
    ignore: Seq<Seq<char>>,
    vals: Seq<FieldValueModel>,
)
    requires
        spec_read_fields(attrs, context, schema, ignore) == Ok::<Seq<FieldValueModel>, XmlErrorModel>(vals),
    ensures
        vals.len() == schema.len(),
        forall|k: int|
            0 <= k < schema.len() ==> convert_field(kept_attributes(attrs, ignore), schema[k]) == Ok::<
                FieldValueModel,
                XmlErrorModel,
            >(#[trigger] vals[k]),
{
    lemma_convert_fields_at(kept_attributes(attrs, ignore), schema, schema.len() as int);
}

/// Skipping no name keeps every attribute.
pub proof fn lemma_kept_all(attrs: Seq<(Seq<char>, Seq<char>)>)
    ensures
        kept_attributes(attrs, Seq::<Seq<char>>::empty()) == attrs,
    decreases attrs.len(),
{
    reveal_with_fuel(Seq::filter, 1);
    if attrs.len() > 0 {
        lemma_kept_all(attrs.drop_last());
        assert(attrs.drop_last().push(attrs.last()) =~= attrs);
    }
}

/// Skipping the one name `name` keeps the attributes not called `name`.
pub proof fn lemma_kept_one(attrs: Seq<(Seq<char>, Seq<char>)>, name: Seq<char>)
    ensures
        kept_attributes(attrs, seq![name]) == attributes_without(attrs, name),
    decreases attrs.len(),
{
    reveal_with_fuel(Seq::filter, 1);
    if attrs.len() > 0 {
        lemma_kept_one(attrs.drop_last(), name);
        assert(seq![name].contains(attrs.last().0) <==> attrs.last().0 == name) by {
            if attrs.last().0 == name {
                assert(seq![name][0] == name);
            }
        }
    }
}

/// Reading the fields of an element never depends on an attribute with a
/// skipped name: the attributes with that name left out, the reading is the same.
pub proof fn lemma_read_fields_without(
    attrs: Seq<(Seq<char>, Seq<char>)>,
    context: Seq<char>,
    schema: Seq<FieldSpec>,
    ignore: Seq<Seq<char>>,
    name: Seq<char>,
)
    requires
        ignore.contains(name),
    ensures
        spec_read_fields(attributes_without(attrs, name), context, schema, ignore) == spec_read_fields(
            attrs,
            context,
            schema,
            ignore,
        ),
{
    lemma_unexpected_without(attrs, schema, ignore, name);
    lemma_kept_without(attrs, ignore, name);
}

/// The value of the last attribute called `name`, if any.
pub fn attribute_last(attrs: &Vec<XmlAttribute>, name: &str) -> (r: Option<String>)
    ensures
        r.deep_view() == last_value(attribute_pairs(attrs@), name@),
{
    let mut k: usize = attrs.len();
    assert(attrs@.take(k as int) =~= attrs@);
    while k > 0
        invariant
            k <= attrs@.len(),
            last_value(attribute_pairs(attrs@), name@) == last_value(
                attribute_pairs(attrs@.take(k as int)),
                name@,
            ),
        decreases k,
    {
        let ghost pre = attribute_pairs(attrs@.take(k as int));
        assert(pre.drop_last() =~= attribute_pairs(attrs@.take(k - 1)));
        assert(pre.last() == attrs@[k - 1].pair());
        if str_eq(attrs[k - 1].name.as_str(), name) {
            return Some(attrs[k - 1].value.clone());
        }
        k = k - 1;
    }
    proof {
        assert(attribute_pairs(attrs@.take(0)) =~= Seq::<(Seq<char>, Seq<char>)>::empty());
        assert(attrs@.take(attrs@.len() as int) =~= attrs@);
    }
    None
}

/// The value of the first attribute called `name`, if any.
pub fn attribute_first(attrs: &Vec<XmlAttribute>, name: &str) -> (r: Option<String>)
    ensures
        r.deep_view() == first_value(attribute_pairs(attrs@), name@),
{
    let mut k: usize = 0;
    assert(attrs@.skip(0) =~= attrs@);
    while k < attrs.len()
        invariant
            k <= attrs@.len(),
            first_value(attribute_pairs(attrs@), name@) == first_value(
                attribute_pairs(attrs@.skip(k as int)),
                name@,
            ),
        decreases attrs@.len() - k,
    {
        let ghost rest = attribute_pairs(attrs@.skip(k as int));
        assert(rest.skip(1) =~= attribute_pairs(attrs@.skip(k + 1)));
        assert(rest[0] == attrs@[k as int].pair());
        if str_eq(attrs[k].name.as_str(), name) {
            return Some(attrs[k].value.clone());
        }
        k = k + 1;
    }
    proof {
        assert(attribute_pairs(attrs@.skip(k as int)) =~= Seq::<(Seq<char>, Seq<char>)>::empty());
        assert(attrs@.skip(0) =~= attrs@);
    }
    None
}

fn is_expected_name(schema: &[FieldDesc], ignore: &[&str], name: &str) -> (r: bool)
    ensures
        r == is_expected(field_specs(schema@), str_views(ignore@), name@),
{
    if name.unicode_len() == 0 {
        return true;
    }
    let mut k: usize = 0;
    while k < ignore.len()
        invariant
            k <= ignore@.len(),
            forall|q: int| 0 <= q < k ==> ignore@[q]@ != name@,
        decreases ignore@.len() - k,
    {
        if str_eq(ignore[k], name) {
            assert(str_views(ignore@)[k as int] == name@);
            return true;
        }
        k = k + 1;
    }
    let mut f: usize = 0;
    while f < schema.len()
        invariant
            f <= schema@.len(),
            forall|q: int| 0 <= q < f ==> schema@[q].name@ != name@,
        decreases schema@.len() - f,
    {
        if str_eq(schema[f].name, name) {
            assert(field_specs(schema@)[f as int].name == name@);
            return true;
        }
        f = f + 1;
    }
    assert(!str_views(ignore@).contains(name@));
    proof {
        if exists|q: int|
            0 <= q < schema@.len() && #[trigger] field_specs(schema@)[q].name == name@ {
            let q = choose|q: int|
                0 <= q < schema@.len() && #[trigger] field_specs(schema@)[q].name == name@;
            assert(schema@[q].name@ == name@);
        }
    }
    false
}

fn read_value(kind: FieldKind, s: String) -> (r: Result<FieldValue, XmlError>)
    ensures
        match r {
            Ok(v) => convert_value(kind, s@) == Ok::<FieldValueModel, XmlErrorModel>(v@),
            Err(e) => convert_value(kind, s@) == Err::<FieldValueModel, XmlErrorModel>(e@),
        },
{
    match kind {
        FieldKind::Text => Ok(FieldValue::Text(Some(s))),
        FieldKind::List => Ok(FieldValue::List(Some(split_nonempty(s.as_str(), ';')))),
        FieldKind::Bool => match bool_value(s.as_str()) {
            Some(b) => Ok(FieldValue::Bool(Some(b))),
            None => Err(XmlError::InvalidBool { value: s }),
        },
        FieldKind::U8 => match parse_u8(s.as_str()) {
            Ok(v) => Ok(FieldValue::U8(Some(v))),
            Err(k) => Err(XmlError::InvalidInteger { value: s, kind: k }),
        },
        FieldKind::I8 => match parse_i8(s.as_str()) {
            Ok(v) => Ok(FieldValue::I8(Some(v))),
            Err(k) => Err(XmlError::InvalidInteger { value: s, kind: k }),
        },
    }
}

fn absent(kind: FieldKind) -> (r: FieldValue)
    ensures
        r@ == absent_value(kind),
{
    match kind {
        FieldKind::Text => FieldValue::Text(None),
        FieldKind::List => FieldValue::List(None),
        FieldKind::Bool => FieldValue::Bool(None),
        FieldKind::U8 => FieldValue::U8(None),
        FieldKind::I8 => FieldValue::I8(None),
    }
}

/// Reads the fields `schema` of the element `node`, called `context` in errors;
/// attributes named in `ignore` are skipped.
fn ignores(ignore: &[&str], name: &str) -> (r: bool)
    ensures
        r == str_views(ignore@).contains(name@),
{
    let mut k: usize = 0;
    while k < ignore.len()
        invariant
            k <= ignore@.len(),
            forall|q: int| 0 <= q < k ==> ignore@[q]@ != name@,
        decreases ignore@.len() - k,
    {
        if str_eq(ignore[k], name) {
            assert(str_views(ignore@)[k as int] == name@);
            return true;
        }
        k = k + 1;
    }
    proof {
        if str_views(ignore@).contains(name@) {
            let q = choose|q: int| 0 <= q < str_views(ignore@).len() && str_views(ignore@)[q] == name@;
            assert(ignore@[q]@ == name@);
        }
    }
    false
}

/// The raw value of the field `name`: the last attribute with that name,
/// unless the name is skipped.
fn field_text(node: &XmlNode, name: &str, ignore: &[&str]) -> (r: Option<String>)
    ensures
        r.deep_view() == last_value(kept_attributes(node@.attributes, str_views(ignore@)), name@),
{
    proof {
        lemma_last_value_kept(node@.attributes, str_views(ignore@), name@);
    }
    if ignores(ignore, name) {
        None
    } else {
        attribute_last(&node.attributes, name)
    }
}

pub fn read_fields(node: &XmlNode, context: &str, schema: &[FieldDesc], ignore: &[&str]) -> (r:
    Result<Vec<FieldValue>, XmlError>)
    ensures
        match r {
            Ok(v) => spec_read_fields(
                node@.attributes,
                context@,
                field_specs(schema@),
                str_views(ignore@),
            ) == Ok::<Seq<FieldValueModel>, XmlErrorModel>(field_values_view(v@)),
            Err(e) => spec_read_fields(
                node@.attributes,
                context@,
                field_specs(schema@),
                str_views(ignore@),
            ) == Err::<Seq<FieldValueModel>, XmlErrorModel>(e@),
        },
{
    let ghost attrs = node@.attributes;
    let ghost sch = field_specs(schema@);
    let ghost ign = str_views(ignore@);
    let ghost kept = kept_attributes(attrs, ign);
    assert(attrs.len() == node.attributes@.len());
    let mut k: usize = 0;
    while k < node.attributes.len()
        invariant
            attrs == attribute_pairs(node.attributes@),
            sch == field_specs(schema@),
            ign == str_views(ignore@),
            k <= attrs.len(),
            first_unexpected(attrs, sch, ign, k as int) is None,
        decreases attrs.len() - k,
    {
        let a = &node.attributes[k];
        assert(attrs[k as int] == a.pair());
        if !is_expected_name(schema, ignore, a.name.as_str()) {
            let e = XmlError::UnexpectedAttribute {
                context: context.to_owned(),
                name: a.name.clone(),
                value: a.value.clone(),
            };
            proof {
                lemma_unexpected_stays(attrs, sch, ign, k + 1, attrs.len() as int);
            }
            return Err(e);
        }
        k = k + 1;
    }
    let mut f: usize = 0;
    while f < schema.len()
        invariant
            attrs == attribute_pairs(node.attributes@),
            sch == field_specs(schema@),
            ign == str_views(ignore@),
            kept == kept_attributes(attrs, ign),
            sch.len() == schema@.len(),
            f <= sch.len(),
            first_unexpected(attrs, sch, ign, attrs.len() as int) is None,
            first_missing(kept, sch, f as int) is None,
        decreases sch.len() - f,
    {
        let d = &schema[f];
        assert(sch[f as int] == d.spec());
        if d.required {
            if field_text(node, d.name, ignore).is_none() {
                proof {
                    lemma_missing_stays(kept, sch, f + 1, sch.len() as int);
                }
                return Err(XmlError::MissingAttribute {
                    context: context.to_owned(),
                    name: d.name.to_owned(),
                });
            }
        }
        f = f + 1;
    }
    let mut values: Vec<FieldValue> = Vec::new();
    assert(field_values_view(values@) =~= Seq::<FieldValueModel>::empty());
    let mut f: usize = 0;
    while f < schema.len()
        invariant
            attrs == attribute_pairs(node.attributes@),
            sch == field_specs(schema@),
            ign == str_views(ignore@),
            kept == kept_attributes(attrs, ign),
            sch.len() == schema@.len(),
            f <= sch.len(),
            first_unexpected(attrs, sch, ign, attrs.len() as int) is None,
            first_missing(kept, sch, sch.len() as int) is None,
            convert_fields(kept, sch, f as int) == Ok::<Seq<FieldValueModel>, XmlErrorModel>(
                field_values_view(values@),
            ),
        decreases sch.len() - f,
    {
        let d = &schema[f];
        assert(sch[f as int] == d.spec());
        let v = match field_text(node, d.name, ignore) {
            None => absent(d.kind),
            Some(s) => match read_value(d.kind, s) {
                Ok(v) => v,
                Err(e) => {
                    proof {
                        lemma_conversion_error_stays(kept, sch, f + 1, sch.len() as int);
                    }
                    return Err(e);
                },
            },
        };
        let ghost before = field_values_view(values@);
        values.push(v);
        assert(field_values_view(values@) =~= before.push(v@));
        f = f + 1;
    }
    Ok(values)
}

proof fn lemma_unexpected_stays(
    attrs: Seq<(Seq<char>, Seq<char>)>,
    schema: Seq<FieldSpec>,
    ignore: Seq<Seq<char>>,
    m: int,
    n: int,
)
    requires
        0 <= m <= n,
        first_unexpected(attrs, schema, ignore, m) is Some,
    ensures
        first_unexpected(attrs, schema, ignore, n) == first_unexpected(attrs, schema, ignore, m),
    decreases n - m,
{
    if m < n {
        lemma_unexpected_stays(attrs, schema, ignore, m, n - 1);
    }
}

proof fn lemma_missing_stays(attrs: Seq<(Seq<char>, Seq<char>)>, schema: Seq<FieldSpec>, m: int, n: int)
    requires
        0 <= m <= n,
        first_missing(attrs, schema, m) is Some,
    ensures
        first_missing(attrs, schema, n) == first_missing(attrs, schema, m),
    decreases n - m,
{
    if m < n {
        lemma_missing_stays(attrs, schema, m, n - 1);
    }
}

proof fn lemma_conversion_error_stays(
    attrs: Seq<(Seq<char>, Seq<char>)>,
    schema: Seq<FieldSpec>,
    m: int,
    n: int,
)
    requires
        0 <= m <= n,
        convert_fields(attrs, schema, m) is Err,
    ensures
        convert_fields(attrs, schema, n) == convert_fields(attrs, schema, m),
    decreases n - m,
{
    if m < n {
        lemma_conversion_error_stays(attrs, schema, m, n - 1);
    }
}

/// The text held by a text field, if any.
pub open spec fn text_of(v: FieldValueModel) -> Option<Seq<char>> {
    match v {
        FieldValueModel::Text(x) => x,
        _ => None,
    }
}

pub open spec fn list_of(v: FieldValueModel) -> Option<Seq<Seq<char>>> {
    match v {
        FieldValueModel::List(x) => x,
        _ => None,
    }
}

pub open spec fn bool_of(v: FieldValueModel) -> Option<bool> {
    match v {
        FieldValueModel::Bool(x) => x,
        _ => None,
    }
}

pub open spec fn u8_of(v: FieldValueModel) -> Option<u8> {
    match v {
        FieldValueModel::U8(x) => x,
        _ => None,
    }
}

pub open spec fn i8_of(v: FieldValueModel) -> Option<i8> {
    match v {
        FieldValueModel::I8(x) => x,
        _ => None,
    }
}

/// A copy of the strings of `v`.
pub fn clone_strings(v: &Vec<String>) -> (r: Vec<String>)
    ensures
        r.deep_view() == v.deep_view(),
{
    let mut out: Vec<String> = Vec::new();
    let mut k: usize = 0;
    while k < v.len()
        invariant
            k <= v@.len(),
            out.deep_view() == v.deep_view().take(k as int),
        decreases v@.len() - k,
    {
        let ghost before = out.deep_view();
        out.push(v[k].clone());
        assert(out.deep_view() =~= before.push(v@[k as int]@));
        assert(v.deep_view().take(k + 1) =~= v.deep_view().take(k as int).push(v@[k as int]@));
        k = k + 1;
    }
    assert(v.deep_view().take(v@.len() as int) =~= v.deep_view());
    out
}

/// The text of value `k`, if it is a present text value.
pub fn text_at(v: &Vec<FieldValue>, k: usize) -> (r: Option<String>)
    requires
        k < v@.len(),
    ensures
        r.deep_view() == text_of(v@[k as int]@),
{
    match &v[k] {
        FieldValue::Text(Some(s)) => Some(s.clone()),
        _ => None,
    }
}

/// The text of value `k`; empty unless it is a present text value.
pub fn required_text_at(v: &Vec<FieldValue>, k: usize) -> (r: String)
    requires
        k < v@.len(),
    ensures
        text_of(v@[k as int]@) is Some ==> r@ == text_of(v@[k as int]@).unwrap(),
{
    match &v[k] {
        FieldValue::Text(Some(s)) => s.clone(),
        _ => String::new(),
    }
}

pub fn list_at(v: &Vec<FieldValue>, k: usize) -> (r: Option<Vec<String>>)
    requires
        k < v@.len(),
    ensures
        r.deep_view() == list_of(v@[k as int]@),
{
    match &v[k] {
        FieldValue::List(Some(s)) => Some(clone_strings(s)),
        _ => None,
    }
}

pub fn bool_at(v: &Vec<FieldValue>, k: usize) -> (r: Option<bool>)
    requires
        k < v@.len(),
    ensures
        r == bool_of(v@[k as int]@),
{
    match &v[k] {
        FieldValue::Bool(x) => *x,
        _ => None,
    }
}

pub fn u8_at(v: &Vec<FieldValue>, k: usize) -> (r: Option<u8>)
    requires
        k < v@.len(),
    ensures
        r == u8_of(v@[k as int]@),
{
    match &v[k] {
        FieldValue::U8(x) => *x,
        _ => None,
    }
}

pub fn i8_at(v: &Vec<FieldValue>, k: usize) -> (r: Option<i8>)
    requires
        k < v@.len(),
    ensures
        r == i8_of(v@[k as int]@),
{
    match &v[k] {
        FieldValue::I8(x) => *x,
        _ => None,
    }
}

} // verus!
