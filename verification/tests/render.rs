use xsd_parser::render::{attribute_plan, AttributeInfo, AttributeMatch, AttributeMatcher, DefaultAttributeHandler};
use xsd_parser::render::{enum_find_suitable_plan, ElementTreatment, FindSuitablePlan};
use xsd_parser::allows_any::{target_type_allows_any, ElementKind, MetaTypeKind, MetaTypes};
use xsd_parser::render::{
    boxed_deserializer_ident, data_handler, deserializer_handler, enum_state_variants,
    fallback_check, finish_conversion, reference_body, render_validation, return_end_event,
    simple_body, struct_init_kind, struct_state_variants, value_store, ComplexDataContent,
    DataHandler, DeserializerHandler, EndEventReturn, FallbackCheck, FinishConversion, InitKind,
    MaxOccurs, Occurs, QuickXmlDeserializeRenderStep, ReferenceBody, RenderStepType, SimpleBody,
    StateVariant, StructMode, TypedefMode, Validation, ValueStore, WhiteSpace,
};

#[test]
fn render_step() {
    let s = QuickXmlDeserializeRenderStep { boxed_deserializer: true };
    assert_eq!(s.render_step_type(), RenderStepType::ExtraImpls);
    assert_eq!(boxed_deserializer_ident(true, "FooDeserializer"), "FooDeserializer");
    assert_eq!(boxed_deserializer_ident(false, "FooDeserializer"), "Self");
}

#[test]
fn content_states() {
    let c = ComplexDataContent { is_simple: false, occurs: Occurs::DynamicList, max_occurs: MaxOccurs::Bounded(3) };
    assert!(c.need_next_state());
    assert!(c.need_done_state(false));
    assert!(!c.need_done_state(true));
    let s = ComplexDataContent { is_simple: true, occurs: Occurs::Single, max_occurs: MaxOccurs::Bounded(1) };
    assert!(!s.need_next_state());
    assert!(!s.need_done_state(false));
    assert_eq!(
        struct_state_variants(StructMode::Content(c), false),
        vec![StateVariant::Init, StateVariant::Next, StateVariant::Content, StateVariant::Done, StateVariant::Unknown]
    );
    assert_eq!(
        struct_state_variants(StructMode::Content(s), true),
        vec![StateVariant::Init, StateVariant::Content, StateVariant::Unknown]
    );
    assert_eq!(struct_state_variants(StructMode::Empty, true), vec![StateVariant::Init, StateVariant::Unknown]);
    assert_eq!(
        struct_state_variants(StructMode::All { elements: 2 }, true),
        vec![StateVariant::Init, StateVariant::Next, StateVariant::Element(0), StateVariant::Element(1), StateVariant::Unknown]
    );
    assert_eq!(
        struct_state_variants(StructMode::Sequence { elements: 1 }, true),
        vec![StateVariant::Init, StateVariant::Element(0), StateVariant::Done, StateVariant::Unknown]
    );
    assert_eq!(
        enum_state_variants(2),
        vec![StateVariant::Init, StateVariant::Element(0), StateVariant::Element(1), StateVariant::Done, StateVariant::Unknown]
    );
}

#[test]
fn handlers() {
    assert_eq!(data_handler(false, Occurs::Single, MaxOccurs::Bounded(1)), DataHandler::Finish);
    assert_eq!(data_handler(false, Occurs::DynamicList, MaxOccurs::Bounded(4)), DataHandler::FinishAtMax(4));
    assert_eq!(data_handler(false, Occurs::DynamicList, MaxOccurs::Unbounded), DataHandler::Continue);
    assert_eq!(data_handler(true, Occurs::Single, MaxOccurs::Bounded(1)), DataHandler::Continue);
    assert_eq!(deserializer_handler(Occurs::Optional, MaxOccurs::Bounded(1)), DeserializerHandler::AwaitEnd);
    assert_eq!(deserializer_handler(Occurs::StaticList(2), MaxOccurs::Bounded(2)), DeserializerHandler::MoreBelowMax(2));
    assert_eq!(deserializer_handler(Occurs::DynamicList, MaxOccurs::Unbounded), DeserializerHandler::More);
    assert_eq!(return_end_event(true), EndEventReturn::Consumed);
    assert_eq!(return_end_event(false), EndEventReturn::Continue);
}

#[test]
fn bodies() {
    assert_eq!(render_validation(WhiteSpace::Preserve, false), None);
    assert_eq!(render_validation(WhiteSpace::Collapse, false), Some(Validation { whitespace: Some(WhiteSpace::Collapse), validate_str: false }));
    assert_eq!(render_validation(WhiteSpace::Preserve, true), Some(Validation { whitespace: None, validate_str: true }));
    assert_eq!(simple_body(true, Occurs::Single), SimpleBody::FromStr);
    assert_eq!(simple_body(false, Occurs::Single), SimpleBody::FromBytes);
    assert_eq!(simple_body(false, Occurs::DynamicList), SimpleBody::List);
    assert_eq!(reference_body(TypedefMode::Typedef, Occurs::Single), None);
    assert_eq!(reference_body(TypedefMode::NewType, Occurs::Absent), None);
    assert_eq!(reference_body(TypedefMode::NewType, Occurs::StaticList(3)), Some(ReferenceBody::StaticList(3)));
    assert_eq!(struct_init_kind(StructMode::Content(ComplexDataContent { is_simple: true, occurs: Occurs::Single, max_occurs: MaxOccurs::Bounded(1) }), true), InitKind::Simple);
    assert_eq!(struct_init_kind(StructMode::Empty, true), InitKind::Element);
    assert_eq!(struct_init_kind(StructMode::All { elements: 1 }, false), InitKind::Group);
    assert_eq!(value_store(Occurs::Optional), ValueStore::Option);
    assert_eq!(value_store(Occurs::StaticList(2)), ValueStore::Vec);
    assert_eq!(finish_conversion(Occurs::Single, true), FinishConversion::Required { boxed: true });
    assert_eq!(finish_conversion(Occurs::Optional, true), FinishConversion::OptionalBoxed);
    assert_eq!(finish_conversion(Occurs::DynamicList, false), FinishConversion::AsIs);
    assert_eq!(finish_conversion(Occurs::StaticList(4), false), FinishConversion::Array(4));
    assert_eq!(fallback_check(Occurs::Single, 1), Some(FallbackCheck::NoValue));
    assert_eq!(fallback_check(Occurs::DynamicList, 1), Some(FallbackCheck::EmptyList));
    assert_eq!(fallback_check(Occurs::DynamicList, 0), None);
    assert_eq!(fallback_check(Occurs::Optional, 1), None);
}

#[test]
fn allows_any_walk() {
    // 0: sequence(any), 1: complex(content 2), 2: choice(text, type 0)
    // 3: all(type 4, any), 4: all(type 3) (cycle), 5: custom(true), 6: sequence(text, any)
    let types = MetaTypes {
        types: vec![
            MetaTypeKind::Sequence(vec![ElementKind::Any]),
            MetaTypeKind::ComplexType { content: Some(2) },
            MetaTypeKind::Choice(vec![ElementKind::Text, ElementKind::Type(0)]),
            MetaTypeKind::All(vec![ElementKind::Type(4), ElementKind::Any]),
            MetaTypeKind::All(vec![ElementKind::Type(3)]),
            MetaTypeKind::Custom { allow_any: true },
            MetaTypeKind::Sequence(vec![ElementKind::Text, ElementKind::Any]),
            MetaTypeKind::Other,
        ],
    };
    assert!(target_type_allows_any(ElementKind::Any, &types));
    assert!(!target_type_allows_any(ElementKind::Text, &types));
    assert!(target_type_allows_any(ElementKind::Type(0), &types));
    assert!(!target_type_allows_any(ElementKind::Type(1), &types)); // text stops the choice
    assert!(target_type_allows_any(ElementKind::Type(3), &types)); // cycle back to 3 gives false, then any
    assert!(target_type_allows_any(ElementKind::Type(4), &types));
    assert!(target_type_allows_any(ElementKind::Type(5), &types));
    assert!(!target_type_allows_any(ElementKind::Type(6), &types));
    assert!(!target_type_allows_any(ElementKind::Type(7), &types));
    assert!(!target_type_allows_any(ElementKind::Type(99), &types));
}

#[test]
fn attribute_plans() {
    let attrs = vec![
        AttributeInfo { is_any: false, has_namespace: true },
        AttributeInfo { is_any: true, has_namespace: false },
        AttributeInfo { is_any: false, has_namespace: false },
    ];
    let p = attribute_plan(&attrs, false);
    assert_eq!(
        p.matchers,
        vec![
            AttributeMatcher { attribute: 0, kind: AttributeMatch::Namespaced, chained: false },
            AttributeMatcher { attribute: 2, kind: AttributeMatch::Local, chained: true },
        ]
    );
    assert_eq!(p.default_handler, Some(DefaultAttributeHandler::CollectAny(1)));
    assert!(p.default_in_else);
    assert!(p.attribute_loop);

    let p = attribute_plan(&Vec::new(), true);
    assert!(p.matchers.is_empty());
    assert_eq!(p.default_handler, None);
    assert!(!p.attribute_loop);

    let p = attribute_plan(&Vec::new(), false);
    assert_eq!(p.default_handler, Some(DefaultAttributeHandler::RaiseUnexpected));
    assert!(!p.default_in_else);
    assert!(p.attribute_loop);
}

#[test]
fn find_suitable_plans() {
    let els = vec![ElementTreatment::Group, ElementTreatment::Element, ElementTreatment::Text, ElementTreatment::Text];
    assert_eq!(
        enum_find_suitable_plan(false, &els),
        FindSuitablePlan { bind_start: true, mutable_event: true, track_allow_any: false, fallback_text: Some(2) }
    );
    let els = vec![ElementTreatment::Group, ElementTreatment::Any];
    assert_eq!(
        enum_find_suitable_plan(false, &els),
        FindSuitablePlan { bind_start: false, mutable_event: true, track_allow_any: true, fallback_text: None }
    );
    assert_eq!(
        enum_find_suitable_plan(true, &els),
        FindSuitablePlan { bind_start: false, mutable_event: true, track_allow_any: false, fallback_text: None }
    );
    assert_eq!(
        enum_find_suitable_plan(false, &vec![ElementTreatment::Element]),
        FindSuitablePlan { bind_start: true, mutable_event: false, track_allow_any: false, fallback_text: None }
    );
}
