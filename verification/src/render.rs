//! The decisions the code renderer takes when it plans the deserializer of a
//! type: which state variants it needs, how its handlers treat finished data
//! and unfinished child deserializers, and what code bodies it emits.
//! Emitting the code itself is the renderer's concern; here it is planned.

use vstd::prelude::*;
use vstd::string::*;

verus! {

/// The step that renders the deserialization code of a type.
#[derive(Debug, Clone, Copy)]
pub struct QuickXmlDeserializeRenderStep {
    /// Whether to box the deserializer or not.
    ///
    /// Boxing the deserializer will reduce the stack usage, but may decrease
    /// the performance.
    pub boxed_deserializer: bool,
}

/// The kind of code a render step adds to a type.
#[derive(Debug, Clone, Copy, PartialEq, Eq)]
pub enum RenderStepType {
    /// Additional trait implementations.
    ExtraImpls,
}

impl QuickXmlDeserializeRenderStep {
    /// The deserializer is rendered as additional implementations.
    pub fn render_step_type(&self) -> (r: RenderStepType)
        ensures
            r == RenderStepType::ExtraImpls,
    {
        RenderStepType::ExtraImpls
    }
}

/// How often an element or content occurs in its type.
#[derive(Debug, Clone, Copy, PartialEq, Eq)]
pub enum Occurs {
    /// It does not occur at all.
    Absent,
    /// Exactly once.
    Single,
    /// At most once.
    Optional,
    /// Any number of times, stored in a vector.
    DynamicList,
    /// A fixed number of times, stored in an array of that size.
    StaticList(usize),
}

/// The upper bound of the occurrences of an element or content.
#[derive(Debug, Clone, Copy, PartialEq, Eq)]
pub enum MaxOccurs {
    Unbounded,
    Bounded(usize),
}

impl MaxOccurs {
    /// Whether there is an upper bound.
    pub fn is_bounded(&self) -> (r: bool)
        ensures
            r == (*self is Bounded),
    {
        match self {
            MaxOccurs::Bounded(_) => true,
            MaxOccurs::Unbounded => false,
        }
    }
}

/// What the renderer knows of the content of a complex type.
#[derive(Debug, Clone, Copy)]
pub struct ComplexDataContent {
    /// The content is a simple value read from text.
    pub is_simple: bool,
    pub occurs: Occurs,
    pub max_occurs: MaxOccurs,
}

impl ComplexDataContent {
    /// Whether the state type needs a state between two contents.
    pub fn need_next_state(&self) -> (r: bool)
        ensures
            r == !self.is_simple,
    {
        !self.is_simple
    }

    /// Whether the state type needs a state for a finished content: for complex
    /// content with an upper bound that does not represent an element.
    pub fn need_done_state(&self, represents_element: bool) -> (r: bool)
        ensures
            r == (!self.is_simple && !represents_element && self.max_occurs is Bounded),
    {
        !self.is_simple && !represents_element && self.max_occurs.is_bounded()
    }
}

/// The name the generated code uses for the deserializer type inside its own
/// implementation: the type's name when it is boxed, `Self` otherwise.
pub fn boxed_deserializer_ident(is_boxed: bool, deserializer_ident: &str) -> (r: String)
    ensures
        r@ == if is_boxed {
            deserializer_ident@
        } else {
            "Self"@
        },
{
    if is_boxed {
        String::from_str(deserializer_ident)
    } else {
        String::from_str("Self")
    }
}

/// What a handler does when a child value is finished.
#[derive(Debug, Clone, Copy, PartialEq, Eq)]
pub enum DataHandler {
    /// Store the value and finish: the expected value has been received.
    Finish,
    /// Store the value and finish once the list holds the given number of values,
    /// continue with the next value before.
    FinishAtMax(usize),
    /// Store the value and continue with the next value.
    Continue,
}

/// What a handler does when a child deserializer is not finished yet.
#[derive(Debug, Clone, Copy, PartialEq, Eq)]
pub enum DeserializerHandler {
    /// Keep the deserializer and continue only on end tags.
    AwaitEnd,
    /// Try a new value while the list (with the pending value) holds fewer than
    /// the given number of values, keep the deserializer and await the end tag
    /// otherwise.
    MoreBelowMax(usize),
    /// Try a new value for any event that continues the element.
    More,
}

/// The data handler for an element or content of a type that does or does
/// not represent an element.
pub fn data_handler(represents_element: bool, occurs: Occurs, max_occurs: MaxOccurs) -> (r:
    DataHandler)
    requires
        !(occurs is Absent),
    ensures
        r == if !represents_element && (occurs is Single || occurs is Optional) {
            DataHandler::Finish
        } else if !represents_element && (occurs is DynamicList || occurs is StaticList)
            && max_occurs is Bounded {
            DataHandler::FinishAtMax(max_occurs->Bounded_0)
        } else {
            DataHandler::Continue
        },
{
    match (represents_element, occurs, max_occurs) {
        (false, Occurs::Single, _) | (false, Occurs::Optional, _) => DataHandler::Finish,
        (false, Occurs::DynamicList, MaxOccurs::Bounded(max)) | (
            false,
            Occurs::StaticList(_),
            MaxOccurs::Bounded(max),
        ) => DataHandler::FinishAtMax(max),
        _ => DataHandler::Continue,
    }
}

/// The handler for an unfinished child deserializer.
pub fn deserializer_handler(occurs: Occurs, max_occurs: MaxOccurs) -> (r: DeserializerHandler)
    requires
        !(occurs is Absent),
    ensures
        r == if occurs is Single || occurs is Optional {
            DeserializerHandler::AwaitEnd
        } else if max_occurs is Bounded {
            DeserializerHandler::MoreBelowMax(max_occurs->Bounded_0)
        } else {
            DeserializerHandler::More
        },
{
    match (occurs, max_occurs) {
        (Occurs::Single, _) | (Occurs::Optional, _) => DeserializerHandler::AwaitEnd,
        (_, MaxOccurs::Bounded(max)) => DeserializerHandler::MoreBelowMax(max),
        _ => DeserializerHandler::More,
    }
}

/// How the generated `next` returns the end tag that finishes a type.
#[derive(Debug, Clone, Copy, PartialEq, Eq)]
pub enum EndEventReturn {
    /// The end tag belongs to the element and is consumed.
    Consumed,
    /// The end tag belongs to the parent and is handed back to it.
    Continue,
}

/// A type that represents an element consumes its end tag; a group hands it back.
pub fn return_end_event(represents_element: bool) -> (r: EndEventReturn)
    ensures
        r == if represents_element {
            EndEventReturn::Consumed
        } else {
            EndEventReturn::Continue
        },
{
    if represents_element {
        EndEventReturn::Consumed
    } else {
        EndEventReturn::Continue
    }
}

/// How whitespace of a simple value is normalized before validation.
#[derive(Debug, Clone, Copy, PartialEq, Eq)]
pub enum WhiteSpace {
    Preserve,
    Replace,
    Collapse,
}

/// The checks a simple value's deserializer runs on the value as text.
#[derive(Debug, Clone, Copy, PartialEq, Eq)]
pub struct Validation {
    /// Normalization of whitespace (`Replace` or `Collapse`), if any.
    pub whitespace: Option<WhiteSpace>,
    /// Whether the type's own string validation runs.
    pub validate_str: bool,
}

/// The validation of a simple value: present when whitespace is normalized
/// or the type validates its string form, absent otherwise.
pub fn render_validation(whitespace: WhiteSpace, need_string_validation: bool) -> (r: Option<
    Validation,
>)
    ensures
        r is Some <==> (whitespace != WhiteSpace::Preserve || need_string_validation),
        r matches Some(v) ==> v.validate_str == need_string_validation && v.whitespace == if whitespace
            == WhiteSpace::Preserve {
            None
        } else {
            Some(whitespace)
        },
{
    let ws = match whitespace {
        WhiteSpace::Preserve => None,
        WhiteSpace::Replace => Some(WhiteSpace::Replace),
        WhiteSpace::Collapse => Some(WhiteSpace::Collapse),
    };
    if ws.is_some() || need_string_validation {
        Some(Validation { whitespace: ws, validate_str: need_string_validation })
    } else {
        None
    }
}

/// How a simple type deserializes its inner value.
#[derive(Debug, Clone, Copy, PartialEq, Eq)]
pub enum SimpleBody {
    /// From the validated string.
    FromStr,
    /// From the raw bytes.
    FromBytes,
    /// As a list of values separated by spaces, `|`, `,` or `;`.
    List,
}

/// The body of a simple type's deserializer. Validated values are read from
/// the validated string and must occur once; lists cannot be validated.
pub fn simple_body(has_validation: bool, occurs: Occurs) -> (r: SimpleBody)
    requires
        (has_validation && occurs is Single) || (!has_validation && (occurs is Single
            || occurs is DynamicList)),
    ensures
        r == if has_validation {
            SimpleBody::FromStr
        } else if occurs is Single {
            SimpleBody::FromBytes
        } else {
            SimpleBody::List
        },
{
    if has_validation {
        SimpleBody::FromStr
    } else {
        match occurs {
            Occurs::Single => SimpleBody::FromBytes,
            _ => SimpleBody::List,
        }
    }
}

/// How a type definition is rendered.
#[derive(Debug, Clone, Copy, PartialEq, Eq)]
pub enum TypedefMode {
    Auto,
    Typedef,
    NewType,
}

/// The body of the deserializer of a reference (new) type.
#[derive(Debug, Clone, Copy, PartialEq, Eq)]
pub enum ReferenceBody {
    /// The target value.
    Single,
    /// The target value wrapped in `Some`.
    Optional,
    /// The separated target values in a vector.
    DynamicList,
    /// Exactly the given number of separated target values in an array.
    StaticList(usize),
}

/// The deserializer of a reference type: none for type aliases and for
/// content that does not occur, otherwise by its occurrence.
pub fn reference_body(mode: TypedefMode, occurs: Occurs) -> (r: Option<ReferenceBody>)
    ensures
        r == if mode == TypedefMode::Auto || mode == TypedefMode::Typedef {
            None
        } else {
            match occurs {
                Occurs::Absent => None,
                Occurs::Single => Some(ReferenceBody::Single),
                Occurs::Optional => Some(ReferenceBody::Optional),
                Occurs::DynamicList => Some(ReferenceBody::DynamicList),
                Occurs::StaticList(n) => Some(ReferenceBody::StaticList(n)),
            }
        },
{
    match mode {
        TypedefMode::Auto | TypedefMode::Typedef => None,
        TypedefMode::NewType => match occurs {
            Occurs::Absent => None,
            Occurs::Single => Some(ReferenceBody::Single),
            Occurs::Optional => Some(ReferenceBody::Optional),
            Occurs::DynamicList => Some(ReferenceBody::DynamicList),
            Occurs::StaticList(n) => Some(ReferenceBody::StaticList(n)),
        },
    }
}

/// A variant of a generated deserializer state type.
#[derive(Debug, Clone, Copy, PartialEq, Eq)]
pub enum StateVariant {
    /// Nothing read yet.
    Init,
    /// Between two values.
    Next,
    /// Reading the content.
    Content,
    /// Reading the element with the given position.
    Element(usize),
    /// Finished.
    Done,
    /// Placeholder while the state is being replaced.
    Unknown,
}

/// How the fields of a complex type are laid out.
#[derive(Debug, Clone, Copy)]
pub enum StructMode {
    /// No content.
    Empty,
    /// A content value.
    Content(ComplexDataContent),
    /// An `xs:all` group with the given number of elements.
    All { elements: usize },
    /// An `xs:sequence` group with the given number of elements.
    Sequence { elements: usize },
}

/// `Element(0)` to `Element(n - 1)`.
pub open spec fn element_states(n: nat) -> Seq<StateVariant> {
    Seq::new(n, |i: int| StateVariant::Element(i as usize))
}

/// The variants of the state type of a struct deserializer.
pub open spec fn struct_states(mode: StructMode, represents_element: bool) -> Seq<StateVariant> {
    match mode {
        StructMode::Empty => seq![StateVariant::Init, StateVariant::Unknown],
        StructMode::Content(c) => seq![StateVariant::Init] + (if !c.is_simple {
            seq![StateVariant::Next]
        } else {
            Seq::empty()
        }) + seq![StateVariant::Content] + (if !c.is_simple && !represents_element
            && c.max_occurs is Bounded {
            seq![StateVariant::Done]
        } else {
            Seq::empty()
        }) + seq![StateVariant::Unknown],
        StructMode::All { elements } => seq![StateVariant::Init, StateVariant::Next]
            + element_states(elements as nat) + seq![StateVariant::Unknown],
        StructMode::Sequence { elements } => seq![StateVariant::Init] + element_states(
            elements as nat,
        ) + seq![StateVariant::Done, StateVariant::Unknown],
    }
}

/// The state type of a content deserializer that has a done state also has a
/// next state, and lists the next state before the done state.
pub proof fn lemma_done_state_needs_next_state(content: ComplexDataContent, represents_element: bool)
    ensures
        struct_states(StructMode::Content(content), represents_element).contains(StateVariant::Done)
            ==> {
            let s = struct_states(StructMode::Content(content), represents_element);
            &&& s.contains(StateVariant::Next)
            &&& s.index_of(StateVariant::Next) < s.index_of(StateVariant::Done)
        },
{
    let s = struct_states(StructMode::Content(content), represents_element);
    if s.contains(StateVariant::Done) {
        assert(!content.is_simple && !represents_element && content.max_occurs is Bounded) by {
            if content.is_simple || represents_element || !(content.max_occurs is Bounded) {
                assert(s =~= seq![StateVariant::Init] + (if !content.is_simple {
                    seq![StateVariant::Next]
                } else {
                    Seq::empty()
                }) + seq![StateVariant::Content, StateVariant::Unknown]);
            }
        }
        assert(s =~= seq![
            StateVariant::Init,
            StateVariant::Next,
            StateVariant::Content,
            StateVariant::Done,
            StateVariant::Unknown,
        ]);
        assert(s[1] == StateVariant::Next);
        assert(s[3] == StateVariant::Done);
        s.index_of_first_ensures(StateVariant::Next);
    }
}

fn push_element_states(v: &mut Vec<StateVariant>, n: usize)
    ensures
        final(v)@ == old(v)@ + element_states(n as nat),
{
    let ghost start = v@;
    let mut i: usize = 0;
    while i < n
        invariant
            i <= n,
            v@ == start + element_states(i as nat),
        decreases n - i,
    {
        v.push(StateVariant::Element(i));
        i = i + 1;
        assert(v@ =~= start + element_states(i as nat));
    }
}

/// Lists the variants of the state type of a struct deserializer.
pub fn struct_state_variants(mode: StructMode, represents_element: bool) -> (r: Vec<StateVariant>)
    ensures
        r@ == struct_states(mode, represents_element),
{
    let mut v: Vec<StateVariant> = Vec::new();
    v.push(StateVariant::Init);
    match mode {
        StructMode::Empty => {},
        StructMode::Content(c) => {
            if c.need_next_state() {
                v.push(StateVariant::Next);
            }
            v.push(StateVariant::Content);
            if c.need_done_state(represents_element) {
                v.push(StateVariant::Done);
            }
        },
        StructMode::All { elements } => {
            v.push(StateVariant::Next);
            push_element_states(&mut v, elements);
        },
        StructMode::Sequence { elements } => {
            push_element_states(&mut v, elements);
            v.push(StateVariant::Done);
        },
    }
    v.push(StateVariant::Unknown);
    assert(v@ =~= struct_states(mode, represents_element));
    v
}

/// The variants of the state type of an enum (choice) deserializer with `n`
/// elements: a state per element between the start and the finished value.
pub fn enum_state_variants(n: usize) -> (r: Vec<StateVariant>)
    ensures
        r@ == seq![StateVariant::Init] + element_states(n as nat) + seq![
            StateVariant::Done,
            StateVariant::Unknown,
        ],
{
    let mut v: Vec<StateVariant> = Vec::new();
    v.push(StateVariant::Init);
    push_element_states(&mut v, n);
    v.push(StateVariant::Done);
    v.push(StateVariant::Unknown);
    assert(v@ =~= seq![StateVariant::Init] + element_states(n as nat) + seq![
        StateVariant::Done,
        StateVariant::Unknown,
    ]);
    v
}

/// How a generated deserializer is started.
#[derive(Debug, Clone, Copy, PartialEq, Eq)]
pub enum InitKind {
    /// From a start tag, then reading the simple content.
    Simple,
    /// From the start or empty tag of the element.
    Element,
    /// By offering the event to a fresh group deserializer.
    Group,
}

/// Struct deserializers with simple content start from the tag and read the
/// content; other types start from their element or as a group.
pub fn struct_init_kind(mode: StructMode, represents_element: bool) -> (r: InitKind)
    ensures
        r == if mode matches StructMode::Content(c) && c.is_simple {
            InitKind::Simple
        } else if represents_element {
            InitKind::Element
        } else {
            InitKind::Group
        },
{
    match mode {
        StructMode::Content(c) if c.is_simple => InitKind::Simple,
        _ => {
            if represents_element {
                InitKind::Element
            } else {
                InitKind::Group
            }
        },
    }
}

/// How a value is kept while a deserializer collects it.
#[derive(Debug, Clone, Copy, PartialEq, Eq)]
pub enum ValueStore {
    /// In an `Option`; a second value is an error.
    Option,
    /// In a `Vec`; values are pushed.
    Vec,
}

/// Single and optional values are kept in an `Option`, lists in a `Vec`.
pub fn value_store(occurs: Occurs) -> (r: ValueStore)
    requires
        !(occurs is Absent),
    ensures
        r == if occurs is Single || occurs is Optional {
            ValueStore::Option
        } else {
            ValueStore::Vec
        },
{
    match occurs {
        Occurs::Single | Occurs::Optional => ValueStore::Option,
        _ => ValueStore::Vec,
    }
}

/// How collected values become the field of the finished type.
#[derive(Debug, Clone, Copy, PartialEq, Eq)]
pub enum FinishConversion {
    /// A missing value is an error (the value is boxed when `boxed`).
    Required { boxed: bool },
    /// The optional value is boxed.
    OptionalBoxed,
    /// The collected value as it is.
    AsIs,
    /// The vector must hold exactly the given number of values.
    Array(usize),
}

/// The conversion of collected values: required values must be present,
/// fixed size lists must be complete, and indirect values are boxed.
pub fn finish_conversion(occurs: Occurs, need_indirection: bool) -> (r: FinishConversion)
    requires
        !(occurs is Absent),
    ensures
        r == match occurs {
            Occurs::Single => FinishConversion::Required { boxed: need_indirection },
            Occurs::Optional => if need_indirection {
                FinishConversion::OptionalBoxed
            } else {
                FinishConversion::AsIs
            },
            Occurs::StaticList(n) => FinishConversion::Array(n),
            _ => FinishConversion::AsIs,
        },
{
    match occurs {
        Occurs::Single => FinishConversion::Required { boxed: need_indirection },
        Occurs::Optional => {
            if need_indirection {
                FinishConversion::OptionalBoxed
            } else {
                FinishConversion::AsIs
            }
        },
        Occurs::StaticList(n) => FinishConversion::Array(n),
        _ => FinishConversion::AsIs,
    }
}

/// When a variant of an enum deserializer falls back to its start state on an
/// event it cannot use.
#[derive(Debug, Clone, Copy, PartialEq, Eq)]
pub enum FallbackCheck {
    /// While no value was read.
    NoValue,
    /// While the list is empty.
    EmptyList,
}

/// A single value falls back while it is missing, a list with a lower bound
/// while it is empty; other values never fall back.
pub fn fallback_check(occurs: Occurs, min_occurs: usize) -> (r: Option<FallbackCheck>)
    ensures
        r == match occurs {
            Occurs::Single => Some(FallbackCheck::NoValue),
            Occurs::DynamicList | Occurs::StaticList(_) => if min_occurs > 0 {
                Some(FallbackCheck::EmptyList)
            } else {
                None
            },
            _ => None,
        },
{
    match occurs {
        Occurs::Single => Some(FallbackCheck::NoValue),
        Occurs::DynamicList | Occurs::StaticList(_) => {
            if min_occurs > 0 {
                Some(FallbackCheck::EmptyList)
            } else {
                None
            }
        },
        _ => None,
    }
}

/// What the renderer knows of an attribute of a complex type.
#[derive(Debug, Clone, Copy)]
pub struct AttributeInfo {
    /// The attribute is an `xs:anyAttribute` collection.
    pub is_any: bool,
    /// The attribute's namespace is one of the schema's modules.
    pub has_namespace: bool,
}

/// How an attribute is recognized while reading a start tag.
#[derive(Debug, Clone, Copy, PartialEq, Eq)]
pub enum AttributeMatch {
    /// By its local name in its namespace.
    Namespaced,
    /// By the local part of its raw key.
    Local,
}

/// The test for one attribute in the attribute loop.
#[derive(Debug, Clone, Copy, PartialEq, Eq)]
pub struct AttributeMatcher {
    /// The position of the attribute in the type.
    pub attribute: usize,
    pub kind: AttributeMatch,
    /// The test follows an earlier one (`else if`).
    pub chained: bool,
}

/// What happens to an attribute that no matcher recognizes.
#[derive(Debug, Clone, Copy, PartialEq, Eq)]
pub enum DefaultAttributeHandler {
    /// It is collected by the `anyAttribute` field at the given position.
    CollectAny(usize),
    /// It is an error unless it is a globally allowed attribute.
    RaiseUnexpected,
}

/// The attribute loop of a generated `from_bytes_start`.
#[derive(Debug)]
pub struct AttributePlan {
    pub matchers: Vec<AttributeMatcher>,
    pub default_handler: Option<DefaultAttributeHandler>,
    /// The default handler is the `else` branch of the matchers.
    pub default_in_else: bool,
    /// The loop over the attributes is emitted at all.
    pub attribute_loop: bool,
}

/// The positions of the attributes that are not `anyAttribute` collections.
pub open spec fn named_attributes(attrs: Seq<AttributeInfo>) -> Seq<int>
    decreases attrs.len(),
{
    if attrs.len() == 0 {
        Seq::empty()
    } else {
        named_attributes(attrs.drop_last()) + if attrs.last().is_any {
            Seq::empty()
        } else {
            seq![attrs.len() - 1]
        }
    }
}

/// The position of the last `anyAttribute` collection, if any.
pub open spec fn last_any_attribute(attrs: Seq<AttributeInfo>) -> Option<int>
    decreases attrs.len(),
{
    if attrs.len() == 0 {
        None
    } else if attrs.last().is_any {
        Some(attrs.len() - 1)
    } else {
        last_any_attribute(attrs.drop_last())
    }
}

/// The matcher for the `i`-th named attribute.
pub open spec fn matcher_for(attrs: Seq<AttributeInfo>, i: int) -> AttributeMatcher {
    let a = named_attributes(attrs)[i];
    AttributeMatcher {
        attribute: a as usize,
        kind: if attrs[a].has_namespace {
            AttributeMatch::Namespaced
        } else {
            AttributeMatch::Local
        },
        chained: i > 0,
    }
}

/// Plans the attribute loop: one matcher per named attribute (in order,
/// chained with `else` after the first), unrecognized attributes collected by
/// the last `anyAttribute` field or, unless the type allows any attribute,
/// rejected; the loop is emitted when there are attributes or a default handler.
pub fn attribute_plan(attrs: &Vec<AttributeInfo>, allow_any_attribute: bool) -> (r: AttributePlan)
    ensures
        r.matchers@.len() == named_attributes(attrs@).len(),
        forall|i: int| 0 <= i < r.matchers@.len() ==> #[trigger] r.matchers@[i] == matcher_for(attrs@, i),
        r.default_handler == match last_any_attribute(attrs@) {
            Some(a) => Some(DefaultAttributeHandler::CollectAny(a as usize)),
            None => if allow_any_attribute {
                None
            } else {
                Some(DefaultAttributeHandler::RaiseUnexpected)
            },
        },
        r.default_in_else == (named_attributes(attrs@).len() > 0),
        r.attribute_loop == (attrs@.len() > 0 || r.default_handler is Some),
{
    let mut matchers: Vec<AttributeMatcher> = Vec::new();
    let mut any: Option<usize> = None;
    let mut i: usize = 0;
    while i < attrs.len()
        invariant
            i <= attrs@.len(),
            matchers@.len() == named_attributes(attrs@.subrange(0, i as int)).len(),
            forall|k: int| 0 <= k < matchers@.len() ==> #[trigger] matchers@[k] == matcher_for(attrs@, k),
            named_attributes(attrs@.subrange(0, i as int)).len() <= named_attributes(attrs@).len(),
            forall|k: int| 0 <= k < named_attributes(attrs@.subrange(0, i as int)).len()
                ==> #[trigger] named_attributes(attrs@.subrange(0, i as int))[k] == named_attributes(attrs@)[k],
            any == match last_any_attribute(attrs@.subrange(0, i as int)) {
                Some(a) => Some(a as usize),
                None => None::<usize>,
            },
        decreases attrs@.len() - i,
    {
        let ghost before = attrs@.subrange(0, i as int);
        let ghost after = attrs@.subrange(0, i + 1);
        assert(after.drop_last() =~= before);
        proof {
            lemma_named_prefix(attrs@, i as int + 1);
        }
        let a = attrs[i];
        if a.is_any {
            any = Some(i);
        } else {
            let chained = matchers.len() > 0;
            let kind = if a.has_namespace {
                AttributeMatch::Namespaced
            } else {
                AttributeMatch::Local
            };
            let ghost k = matchers@.len() as int;
            assert(named_attributes(after)[k] == i);
            matchers.push(AttributeMatcher { attribute: i, kind, chained });
        }
        i = i + 1;
    }
    assert(attrs@.subrange(0, attrs@.len() as int) =~= attrs@);
    let default_handler = match any {
        Some(a) => Some(DefaultAttributeHandler::CollectAny(a)),
        None => {
            if allow_any_attribute {
                None
            } else {
                Some(DefaultAttributeHandler::RaiseUnexpected)
            }
        },
    };
    let default_in_else = matchers.len() > 0;
    let attribute_loop = attrs.len() > 0 || default_handler.is_some();
    AttributePlan { matchers, default_handler, default_in_else, attribute_loop }
}

/// The named attributes of a prefix are a prefix of the named attributes.
proof fn lemma_named_prefix(attrs: Seq<AttributeInfo>, n: int)
    requires
        0 <= n <= attrs.len(),
    ensures
        named_attributes(attrs.subrange(0, n)).len() <= named_attributes(attrs).len(),
        forall|k: int| 0 <= k < named_attributes(attrs.subrange(0, n)).len()
            ==> #[trigger] named_attributes(attrs.subrange(0, n))[k] == named_attributes(attrs)[k],
    decreases attrs.len(),
{
    if n == attrs.len() {
        assert(attrs.subrange(0, n) =~= attrs);
    } else {
        lemma_named_prefix(attrs.drop_last(), n);
        assert(attrs.drop_last().subrange(0, n) =~= attrs.subrange(0, n));
    }
}

/// How an element of a generated deserializer is started.
#[derive(Debug, Clone, Copy, PartialEq, Eq)]
pub enum ElementTreatment {
    /// As an element matched by its tag name.
    Element,
    /// As a group that gets every event.
    Group,
    /// As an element wildcard.
    Any,
    /// As text content.
    Text,
}

/// The shape of a generated `find_suitable`.
#[derive(Debug, Clone, Copy, PartialEq, Eq)]
pub struct FindSuitablePlan {
    /// The start tag is bound to test element names.
    pub bind_start: bool,
    /// Groups or wildcards may hand back a new event.
    pub mutable_event: bool,
    /// Whether groups allowing any element is tracked at run time (instead of
    /// using the type's own setting).
    pub track_allow_any: bool,
    /// The first text element, used when no element matches; otherwise the
    /// event is returned to the parent.
    pub fallback_text: Option<usize>,
}

/// Whether some element in `els` has the treatment `t`.
pub open spec fn has_treatment(els: Seq<ElementTreatment>, t: ElementTreatment) -> bool {
    exists|i: int| 0 <= i < els.len() && els[i] == t
}

/// The first text element in `els`, if any.
pub open spec fn first_text(els: Seq<ElementTreatment>) -> Option<int> {
    if has_treatment(els, ElementTreatment::Text) {
        Some(choose|i: int| 0 <= i < els.len() && els[i] == ElementTreatment::Text && forall|k: int|
            0 <= k < i ==> els[k] != ElementTreatment::Text)
    } else {
        None
    }
}

/// Plans `find_suitable` of an enum (choice) deserializer.
pub fn enum_find_suitable_plan(allow_any: bool, els: &Vec<ElementTreatment>) -> (r: FindSuitablePlan)
    ensures
        r.bind_start == has_treatment(els@, ElementTreatment::Element),
        r.mutable_event == (has_treatment(els@, ElementTreatment::Group) || has_treatment(
            els@,
            ElementTreatment::Any,
        )),
        r.track_allow_any == (has_treatment(els@, ElementTreatment::Group) && first_text(els@) is None
            && !allow_any),
        r.fallback_text == match first_text(els@) {
            Some(i) => Some(i as usize),
            None => None::<usize>,
        },
{
    let mut has_element = false;
    let mut has_group = false;
    let mut has_any = false;
    let mut text: Option<usize> = None;
    let mut i: usize = 0;
    while i < els.len()
        invariant
            i <= els@.len(),
            has_element == has_treatment(els@.subrange(0, i as int), ElementTreatment::Element),
            has_group == has_treatment(els@.subrange(0, i as int), ElementTreatment::Group),
            has_any == has_treatment(els@.subrange(0, i as int), ElementTreatment::Any),
            text is None <==> !has_treatment(els@.subrange(0, i as int), ElementTreatment::Text),
            text matches Some(t) ==> (t < i && els@[t as int] == ElementTreatment::Text && forall|k: int|
                0 <= k < t ==> els@[k] != ElementTreatment::Text),
        decreases els@.len() - i,
    {
        let ghost prev = els@.subrange(0, i as int);
        let ghost next = els@.subrange(0, i + 1);
        assert forall|t: ElementTreatment| has_treatment(next, t) == (has_treatment(prev, t) || els@[i as int] == t) by {
            if has_treatment(next, t) {
                let j = choose|j: int| 0 <= j < next.len() && next[j] == t;
                if j < i {
                    assert(prev[j] == t);
                }
            }
            if has_treatment(prev, t) {
                let j = choose|j: int| 0 <= j < prev.len() && prev[j] == t;
                assert(next[j] == t);
            }
            if els@[i as int] == t {
                assert(next[i as int] == t);
            }
        }
        match els[i] {
            ElementTreatment::Element => {
                has_element = true;
            },
            ElementTreatment::Group => {
                has_group = true;
            },
            ElementTreatment::Any => {
                has_any = true;
            },
            ElementTreatment::Text => {
                if text.is_none() {
                    text = Some(i);
                    proof {
                        assert forall|k: int| 0 <= k < i implies els@[k] != ElementTreatment::Text by {
                            if els@[k] == ElementTreatment::Text {
                                assert(prev[k] == ElementTreatment::Text);
                            }
                        }
                    }
                }
            },
        }
        i = i + 1;
    }
    assert(els@.subrange(0, els@.len() as int) =~= els@);
    proof {
        if let Some(t) = text {
            let c = choose|c: int| 0 <= c < els@.len() && els@[c] == ElementTreatment::Text && forall|k: int|
                0 <= k < c ==> els@[k] != ElementTreatment::Text;
            assert(els@[t as int] == ElementTreatment::Text);
            if c < t {
            } else if c > t {
            }
            assert(c == t);
        }
    }
    FindSuitablePlan {
        bind_start: has_element,
        mutable_event: has_group || has_any,
        track_allow_any: has_group && text.is_none() && !allow_any,
        fallback_text: text,
    }
}

} // verus!
