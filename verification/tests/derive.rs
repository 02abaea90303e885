use tcvm::dmm::collect_derive::{
    collect_derive, refusal_message, Declaration, DeriveError, Diagnostic, DiagnosticKind, Field,
    GcLifetime, MetaItem, Mode, OptionArg, OptionName, Variant, WhereClause,
};
use tcvm::dmm::unelide::{__unelide_lifetimes, is_elided};

fn bare(name: OptionName) -> MetaItem {
    MetaItem { name, arg: OptionArg::Bare }
}

fn valued(name: OptionName) -> MetaItem {
    MetaItem { name, arg: OptionArg::Value }
}

fn field(attrs: Vec<Vec<MetaItem>>) -> Field {
    Field { attrs }
}

fn record(attrs: Vec<Vec<MetaItem>>, fields: Vec<Field>, lifetimes: usize) -> Declaration {
    Declaration {
        attrs,
        is_enum: false,
        variants: vec![Variant { collect_attrs: 0, fields }],
        lifetimes,
    }
}

fn refusal(attrs: Vec<Vec<MetaItem>>, lifetimes: usize) -> Option<DeriveError> {
    collect_derive(&record(attrs, vec![field(vec![])], lifetimes)).err()
}

#[test]
fn no_drop_traces_every_field() {
    let decl = record(
        vec![vec![bare(OptionName::NoDrop)]],
        vec![field(vec![]), field(vec![])],
        1,
    );
    let plan = collect_derive(&decl).unwrap();
    assert_eq!(plan.mode, Mode::NoDrop);
    assert_eq!(plan.where_clause, WhereClause::Default);
    assert_eq!(plan.gc_lifetime, GcLifetime::OnlyParameter);
    assert!(plan.bound_parameters);
    assert!(plan.must_not_impl_drop);
    assert_eq!(plan.traced, vec![vec![true, true]]);
    assert!(plan.diagnostics.is_empty());
}

#[test]
fn unsafe_drop_allows_custom_cleanup() {
    let decl = record(vec![vec![bare(OptionName::UnsafeDrop)]], vec![field(vec![])], 0);
    let plan = collect_derive(&decl).unwrap();
    assert_eq!(plan.mode, Mode::UnsafeDrop);
    assert!(!plan.must_not_impl_drop);
    assert_eq!(plan.gc_lifetime, GcLifetime::Any);
    assert_eq!(plan.traced, vec![vec![true]]);
}

#[test]
fn require_static_traces_nothing() {
    let decl = record(
        vec![vec![
            bare(OptionName::RequireStatic),
            valued(OptionName::Bound),
            valued(OptionName::GcLifetime),
        ]],
        vec![field(vec![]), field(vec![vec![bare(OptionName::NoDrop)]])],
        3,
    );
    let plan = collect_derive(&decl).unwrap();
    assert_eq!(plan.mode, Mode::RequireStatic);
    assert_eq!(plan.where_clause, WhereClause::SelfStatic);
    assert_eq!(plan.gc_lifetime, GcLifetime::Any);
    assert!(!plan.bound_parameters);
    assert!(!plan.must_not_impl_drop);
    assert_eq!(plan.traced, vec![vec![false, false]]);
    assert!(plan.diagnostics.is_empty());
}

#[test]
fn static_field_is_left_out_of_the_trace() {
    let decl = record(
        vec![vec![bare(OptionName::NoDrop)]],
        vec![
            field(vec![]),
            field(vec![vec![bare(OptionName::RequireStatic)]]),
            field(vec![vec![]]),
        ],
        0,
    );
    let plan = collect_derive(&decl).unwrap();
    assert_eq!(plan.traced, vec![vec![true, false, true]]);
    assert!(plan.diagnostics.is_empty());
}

#[test]
fn bound_replaces_parameter_bounds() {
    let decl = record(
        vec![vec![valued(OptionName::Bound), bare(OptionName::NoDrop)]],
        vec![field(vec![])],
        0,
    );
    let plan = collect_derive(&decl).unwrap();
    assert_eq!(plan.where_clause, WhereClause::Override);
    assert!(!plan.bound_parameters);
}

#[test]
fn explicit_lifetime_chooses_among_several() {
    let decl = record(
        vec![vec![bare(OptionName::NoDrop), valued(OptionName::GcLifetime)]],
        vec![field(vec![])],
        2,
    );
    let plan = collect_derive(&decl).unwrap();
    assert_eq!(plan.gc_lifetime, GcLifetime::Explicit);
}

#[test]
fn refusals() {
    let no_drop = bare(OptionName::NoDrop);
    assert_eq!(refusal(vec![], 0), Some(DeriveError::MissingMode));
    assert_eq!(refusal(vec![vec![]], 0), Some(DeriveError::MissingMode));
    assert_eq!(
        refusal(vec![vec![valued(OptionName::Bound)]], 0),
        Some(DeriveError::MissingMode)
    );
    assert_eq!(
        refusal(vec![vec![no_drop], vec![no_drop]], 0),
        Some(DeriveError::MultipleAttributes)
    );
    assert_eq!(
        refusal(vec![vec![no_drop, bare(OptionName::UnsafeDrop)]], 0),
        Some(DeriveError::MultipleModes)
    );
    assert_eq!(
        refusal(vec![vec![no_drop, bare(OptionName::Other)]], 0),
        Some(DeriveError::MultipleModes)
    );
    assert_eq!(
        refusal(vec![vec![bare(OptionName::Other), no_drop]], 0),
        Some(DeriveError::UnknownOption)
    );
    assert_eq!(
        refusal(vec![vec![valued(OptionName::Bound), no_drop, valued(OptionName::Bound)]], 0),
        Some(DeriveError::MultipleBounds)
    );
    assert_eq!(
        refusal(
            vec![vec![valued(OptionName::GcLifetime), valued(OptionName::GcLifetime), no_drop]],
            0
        ),
        Some(DeriveError::MultipleGcLifetimes)
    );
    assert_eq!(
        refusal(vec![vec![bare(OptionName::Bound), no_drop]], 0),
        Some(DeriveError::MalformedOption)
    );
    assert_eq!(
        refusal(
            vec![vec![MetaItem { name: OptionName::GcLifetime, arg: OptionArg::Invalid }, no_drop]],
            0
        ),
        Some(DeriveError::MalformedOption)
    );
    assert_eq!(
        refusal(vec![vec![valued(OptionName::NoDrop)]], 0),
        Some(DeriveError::MalformedOption)
    );
    // The name is judged before what follows it.
    assert_eq!(
        refusal(vec![vec![valued(OptionName::Other), no_drop]], 0),
        Some(DeriveError::UnknownOption)
    );
    assert_eq!(
        refusal(vec![vec![no_drop, valued(OptionName::Other)]], 0),
        Some(DeriveError::MultipleModes)
    );
    assert_eq!(
        refusal(vec![vec![no_drop, valued(OptionName::UnsafeDrop)]], 0),
        Some(DeriveError::MultipleModes)
    );
    assert_eq!(
        refusal(
            vec![vec![valued(OptionName::Bound), MetaItem {
                name: OptionName::Bound,
                arg: OptionArg::Invalid
            }]],
            0
        ),
        Some(DeriveError::MultipleBounds)
    );
    assert_eq!(
        refusal(
            vec![vec![no_drop, MetaItem { name: OptionName::Missing, arg: OptionArg::Invalid }]],
            0
        ),
        Some(DeriveError::MalformedOption)
    );
    assert_eq!(
        refusal(vec![vec![MetaItem { name: OptionName::Missing, arg: OptionArg::Bare }]], 0),
        Some(DeriveError::MalformedOption)
    );
    assert_eq!(
        refusal(
            vec![vec![MetaItem { name: OptionName::Bound, arg: OptionArg::Unreadable }, no_drop]],
            0
        ),
        Some(DeriveError::UnreadableBound)
    );
    assert_eq!(refusal(vec![vec![no_drop]], 2), Some(DeriveError::AmbiguousGcLifetime));
    assert_eq!(refusal(vec![vec![no_drop]], 1), None);
}

#[test]
fn unreadable_bound_does_not_matter_for_static_types() {
    let attrs = vec![vec![
        MetaItem { name: OptionName::Bound, arg: OptionArg::Unreadable },
        bare(OptionName::RequireStatic),
    ]];
    assert_eq!(refusal(attrs, 4), None);
}

#[test]
fn field_diagnostics_do_not_refuse() {
    let decl = record(
        vec![vec![bare(OptionName::UnsafeDrop)]],
        vec![
            field(vec![vec![bare(OptionName::NoDrop)]]),
            field(vec![vec![bare(OptionName::RequireStatic), bare(OptionName::Other)]]),
            field(vec![vec![bare(OptionName::RequireStatic)], vec![bare(OptionName::RequireStatic)]]),
            field(vec![vec![valued(OptionName::RequireStatic)]]),
        ],
        0,
    );
    let plan = collect_derive(&decl).unwrap();
    assert_eq!(plan.traced, vec![vec![true, true, true, true]]);
    assert_eq!(
        plan.diagnostics,
        vec![
            Diagnostic { kind: DiagnosticKind::OnlyRequireStaticOnField, variant: 0, field: Some(0) },
            Diagnostic { kind: DiagnosticKind::OnlyRequireStaticOnField, variant: 0, field: Some(1) },
            Diagnostic { kind: DiagnosticKind::MultipleAttributes, variant: 0, field: Some(2) },
            Diagnostic { kind: DiagnosticKind::OnlyRequireStaticOnField, variant: 0, field: Some(3) },
        ]
    );
}

#[test]
fn require_static_given_twice_exempts_nothing() {
    let decl = record(
        vec![vec![bare(OptionName::NoDrop)]],
        vec![
            field(vec![vec![bare(OptionName::RequireStatic), bare(OptionName::RequireStatic)]]),
            field(vec![vec![bare(OptionName::RequireStatic)]]),
            field(vec![vec![MetaItem { name: OptionName::Missing, arg: OptionArg::Invalid }]]),
        ],
        0,
    );
    let plan = collect_derive(&decl).unwrap();
    assert_eq!(plan.traced, vec![vec![true, false, true]]);
    assert_eq!(
        plan.diagnostics,
        vec![
            Diagnostic { kind: DiagnosticKind::OnlyRequireStaticOnField, variant: 0, field: Some(0) },
            Diagnostic { kind: DiagnosticKind::OnlyRequireStaticOnField, variant: 0, field: Some(2) },
        ]
    );
}

#[test]
fn refusal_messages() {
    assert_eq!(
        refusal_message(DeriveError::MultipleAttributes),
        "Cannot specify multiple `#[collect]` attributes! Consider merging them."
    );
    assert_eq!(
        refusal_message(DeriveError::MultipleBounds),
        "multiple bounds specified. `#[collect(...)]` requires one mode (`require_static`, `no_drop`, or `unsafe_drop`) and optionally `bound = \"...\"`."
    );
    assert_eq!(
        refusal_message(DeriveError::MultipleGcLifetimes),
        "multiple `'gc` lifetimes specified. `#[collect(...)]` requires one mode (`require_static`, `no_drop`, or `unsafe_drop`) and optionally `bound = \"...\"`."
    );
    assert_eq!(
        refusal_message(DeriveError::MultipleModes),
        "multiple modes specified. `#[collect(...)]` requires one mode (`require_static`, `no_drop`, or `unsafe_drop`) and optionally `bound = \"...\"`."
    );
    assert_eq!(
        refusal_message(DeriveError::UnknownOption),
        "unknown option. `#[collect(...)]` requires one mode (`require_static`, `no_drop`, or `unsafe_drop`) and optionally `bound = \"...\"`."
    );
    assert_eq!(refusal_message(DeriveError::MalformedOption), "unexpected token");
    assert_eq!(
        refusal_message(DeriveError::MissingMode),
        "deriving `Collect` requires a `#[collect(...)]` attribute"
    );
    assert_eq!(
        refusal_message(DeriveError::UnreadableBound),
        "`#[collect]` failed to parse explicit trait bound expression"
    );
    assert_eq!(
        refusal_message(DeriveError::AmbiguousGcLifetime),
        "deriving `Collect` on a type with multiple lifetime parameters requires a `#[collect(gc_lifetime = ...)]` attribute"
    );
}

#[test]
fn attribute_on_variant_is_reported() {
    let decl = Declaration {
        attrs: vec![vec![bare(OptionName::NoDrop)]],
        is_enum: true,
        variants: vec![
            Variant { collect_attrs: 0, fields: vec![field(vec![vec![bare(OptionName::Other)]])] },
            Variant { collect_attrs: 2, fields: vec![] },
            Variant { collect_attrs: 1, fields: vec![field(vec![])] },
        ],
        lifetimes: 1,
    };
    let plan = collect_derive(&decl).unwrap();
    assert_eq!(plan.traced, vec![vec![true], vec![], vec![true]]);
    assert_eq!(
        plan.diagnostics,
        vec![
            Diagnostic { kind: DiagnosticKind::OnlyRequireStaticOnField, variant: 0, field: Some(0) },
            Diagnostic { kind: DiagnosticKind::AttributeOnVariant, variant: 1, field: None },
            Diagnostic { kind: DiagnosticKind::AttributeOnVariant, variant: 1, field: None },
            Diagnostic { kind: DiagnosticKind::AttributeOnVariant, variant: 2, field: None },
        ]
    );
}

#[test]
fn attribute_on_record_body_is_not_a_variant_attribute() {
    let decl = Declaration {
        attrs: vec![vec![bare(OptionName::NoDrop)]],
        is_enum: false,
        variants: vec![Variant { collect_attrs: 1, fields: vec![field(vec![])] }],
        lifetimes: 0,
    };
    let plan = collect_derive(&decl).unwrap();
    assert!(plan.diagnostics.is_empty());
}

#[test]
fn elided_lifetimes_are_named() {
    let lt = b"gc".to_vec();
    let lifetimes = vec![b"_".to_vec(), b"a".to_vec(), b"_".to_vec(), b"__".to_vec(), b"static".to_vec()];
    let named = __unelide_lifetimes(&lt, lifetimes);
    assert_eq!(
        named,
        vec![b"gc".to_vec(), b"a".to_vec(), b"gc".to_vec(), b"__".to_vec(), b"static".to_vec()]
    );
    assert!(is_elided(&b"_".to_vec()));
    assert!(!is_elided(&b"".to_vec()));
    assert!(!is_elided(&b"a".to_vec()));
    assert!(__unelide_lifetimes(&lt, vec![]).is_empty());
}
