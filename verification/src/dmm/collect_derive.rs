//! The rules by which an implementation of the collection protocol is derived
//! from the shape of a type.
//!
//! A declaration asks for a derived implementation with a `collect`
//! attribute that names one of three modes. What is decided here is what the
//! generated implementation consists of, and which declarations are refused
//! and why; writing it out as code is left to the caller.

use vstd::prelude::*;

verus! {

/// The name of an option inside a `collect` attribute.
#[derive(Debug, Clone, Copy, PartialEq, Eq, Structural)]
pub enum OptionName {
    /// `bound`
    Bound,
    /// `gc_lifetime`
    GcLifetime,
    /// `require_static`
    RequireStatic,
    /// `no_drop`
    NoDrop,
    /// `unsafe_drop`
    UnsafeDrop,
    /// Any other name.
    Other,
    /// No name where one is expected, or no list of options at all.
    Missing,
}

/// What follows the name of an option.
#[derive(Debug, Clone, Copy, PartialEq, Eq, Structural)]
pub enum OptionArg {
    /// Nothing.
    Bare,
    /// `= value`, the value of the form that the option takes: a string of
    /// code for `bound`, a lifetime for `gc_lifetime`.
    Value,
    /// `= "..."`, a string that cannot be read as code.
    Unreadable,
    /// Anything else.
    Invalid,
}

/// One option inside a `collect` attribute.
#[derive(Debug, Clone, Copy, PartialEq, Eq, Structural)]
pub struct MetaItem {
    pub name: OptionName,
    pub arg: OptionArg,
}

/// A field of a record or of a variant: the options of each `collect`
/// attribute on it.
#[derive(Debug)]
pub struct Field {
    pub attrs: Vec<Vec<MetaItem>>,
}

/// A variant of a tagged union, or the body of a record.
#[derive(Debug)]
pub struct Variant {
    /// The number of `collect` attributes on the variant itself.
    pub collect_attrs: usize,
    pub fields: Vec<Field>,
}

/// The shape of a declaration, as far as deriving looks at it.
#[derive(Debug)]
pub struct Declaration {
    /// The options of each `collect` attribute on the declaration.
    pub attrs: Vec<Vec<MetaItem>>,
    /// The declaration is a tagged union.
    pub is_enum: bool,
    /// The variants of a tagged union; for a record, its body as the one
    /// variant.
    pub variants: Vec<Variant>,
    /// The number of lifetime parameters.
    pub lifetimes: usize,
}

/// How a derived implementation is kept safe in the presence of custom
/// cleanup code.
#[derive(Debug, Clone, Copy, PartialEq, Eq, Structural)]
pub enum Mode {
    /// The type holds nothing bound to the heap's lifetime; tracing it does
    /// nothing.
    RequireStatic,
    /// The type may hold pointers into the heap, and must not have custom
    /// cleanup code.
    NoDrop,
    /// The type may hold pointers into the heap and have custom cleanup code,
    /// which must not touch them.
    UnsafeDrop,
}

/// Why a declaration is refused outright.
#[derive(Debug, Clone, Copy, PartialEq, Eq, Structural)]
pub enum DeriveError {
    /// More than one `collect` attribute on the declaration.
    MultipleAttributes,
    /// `bound` given twice.
    MultipleBounds,
    /// `gc_lifetime` given twice.
    MultipleGcLifetimes,
    /// More than one mode, or an option after the mode that is none of
    /// `bound` and `gc_lifetime`, whatever follows its name.
    MultipleModes,
    /// An option that is no mode and none of `bound` and `gc_lifetime`,
    /// whatever follows its name.
    UnknownOption,
    /// An option followed by what it does not take, or no option where one
    /// is expected.
    MalformedOption,
    /// No mode: no `collect` attribute, or one that names none.
    MissingMode,
    /// The string given for `bound` cannot be read as code.
    UnreadableBound,
    /// Several lifetime parameters and no `gc_lifetime` to choose among them.
    AmbiguousGcLifetime,
}

/// The `where` clause of the generated implementation.
#[derive(Debug, Clone, Copy, PartialEq, Eq, Structural)]
pub enum WhereClause {
    /// `where Self: 'static`
    SelfStatic,
    /// The code given for `bound`.
    Override,
    /// None but the bounds on the type's parameters.
    Default,
}

/// The lifetime that stands for the heap in the generated implementation.
#[derive(Debug, Clone, Copy, PartialEq, Eq, Structural)]
pub enum GcLifetime {
    /// The implementation holds for every lifetime.
    Any,
    /// The declaration's one lifetime parameter.
    OnlyParameter,
    /// The lifetime given for `gc_lifetime`.
    Explicit,
}

/// What is wrong with a part of a declaration that is not refused for it.
#[derive(Debug, Clone, Copy, PartialEq, Eq, Structural)]
pub enum DiagnosticKind {
    /// More than one `collect` attribute on a field.
    MultipleAttributes,
    /// An option on a field other than a bare `require_static`.
    OnlyRequireStaticOnField,
    /// A `collect` attribute on a variant.
    AttributeOnVariant,
}

/// A diagnostic reported along with the generated implementation.
#[derive(Debug, Clone, Copy, PartialEq, Eq, Structural)]
pub struct Diagnostic {
    pub kind: DiagnosticKind,
    pub variant: usize,
    /// The field, or `None` for the variant itself.
    pub field: Option<usize>,
}

/// What the generated implementation consists of.
#[derive(Debug)]
pub struct Plan {
    pub mode: Mode,
    pub where_clause: WhereClause,
    pub gc_lifetime: GcLifetime,
    /// Whether each type parameter is bounded by the collection protocol.
    pub bound_parameters: bool,
    /// For each field of each variant, whether it is traced. A field that is
    /// not traced is left out of the "might hold pointers" flag too, and, but
    /// in the mode `RequireStatic`, its type is bounded by `'static`.
    pub traced: Vec<Vec<bool>>,
    /// Whether the marker that forbids custom cleanup code is implemented.
    pub must_not_impl_drop: bool,
    pub diagnostics: Vec<Diagnostic>,
}

/// What reading the options of the declaration's attribute has found.
pub struct Options {
    pub mode: Option<Mode>,
    /// `bound` was given, and whether its string can be read as code.
    pub bound: Option<bool>,
    pub gc_lifetime: bool,
}

/// The mode that an option names, if any.
pub open spec fn mode_of(name: OptionName) -> Option<Mode> {
    match name {
        OptionName::RequireStatic => Some(Mode::RequireStatic),
        OptionName::NoDrop => Some(Mode::NoDrop),
        OptionName::UnsafeDrop => Some(Mode::UnsafeDrop),
        _ => None,
    }
}

/// What one more option makes of what the options before it gave, or why
/// the declaration is refused at that option.
///
/// The name is judged before what follows it: an option given twice, a
/// second mode and an unknown name are refused as such, and only an option
/// that is in order by its name is refused for what follows it.
pub open spec fn read_option(seen: Options, item: MetaItem) -> Result<Options, DeriveError> {
    match item.name {
        OptionName::Missing => Err(DeriveError::MalformedOption),
        OptionName::Bound => if seen.bound is Some {
            Err(DeriveError::MultipleBounds)
        } else {
            match item.arg {
                OptionArg::Value => Ok(Options { bound: Some(true), ..seen }),
                OptionArg::Unreadable => Ok(Options { bound: Some(false), ..seen }),
                _ => Err(DeriveError::MalformedOption),
            }
        },
        OptionName::GcLifetime => if seen.gc_lifetime {
            Err(DeriveError::MultipleGcLifetimes)
        } else if item.arg == OptionArg::Value {
            Ok(Options { gc_lifetime: true, ..seen })
        } else {
            Err(DeriveError::MalformedOption)
        },
        _ => if seen.mode is Some {
            Err(DeriveError::MultipleModes)
        } else if mode_of(item.name) is None {
            Err(DeriveError::UnknownOption)
        } else if item.arg != OptionArg::Bare {
            Err(DeriveError::MalformedOption)
        } else {
            Ok(Options { mode: mode_of(item.name), ..seen })
        },
    }
}

/// What the first `n` options give, read in order: the first that is refused
/// decides.
pub open spec fn read_options(items: Seq<MetaItem>, n: int) -> Result<Options, DeriveError>
    decreases n,
{
    if n <= 0 {
        Ok(Options { mode: None, bound: None, gc_lifetime: false })
    } else {
        match read_options(items, n - 1) {
            Ok(seen) => read_option(seen, items[n - 1]),
            Err(e) => Err(e),
        }
    }
}

/// An option that a field may carry: a bare `require_static`.
pub open spec fn is_field_option(item: MetaItem) -> bool {
    item.name == OptionName::RequireStatic && item.arg == OptionArg::Bare
}

/// Whether a field is exempt from tracing: its one `collect` attribute
/// holds a bare `require_static` and nothing else.
pub open spec fn field_exempt(field: Field) -> bool {
    &&& field.attrs@.len() == 1
    &&& field.attrs@[0]@.len() == 1
    &&& is_field_option(field.attrs@[0]@[0])
}

/// Whether a field is traced: it is unless it is exempt.
pub open spec fn field_traced(field: Field) -> bool {
    !field_exempt(field)
}

/// What is wrong with a field, if anything: more than one `collect`
/// attribute, or one that holds anything but a single bare `require_static`.
/// An attribute that holds no option at all is in order, and exempts nothing.
pub open spec fn field_diagnostic(field: Field) -> Option<DiagnosticKind> {
    if field.attrs@.len() == 0 {
        None
    } else if field.attrs@.len() > 1 {
        Some(DiagnosticKind::MultipleAttributes)
    } else if field.attrs@[0]@.len() == 0 || field_exempt(field) {
        None
    } else {
        Some(DiagnosticKind::OnlyRequireStaticOnField)
    }
}

/// The diagnostics of the first `n` fields of variant `v`, in order.
pub open spec fn fields_diagnostics(fields: Seq<Field>, v: usize, n: int) -> Seq<Diagnostic>
    decreases n,
{
    if n <= 0 {
        Seq::empty()
    } else {
        let before = fields_diagnostics(fields, v, n - 1);
        match field_diagnostic(fields[n - 1]) {
            Some(kind) => before.push(Diagnostic { kind, variant: v, field: Some((n - 1) as usize) }),
            None => before,
        }
    }
}

/// The diagnostics of the fields of the first `n` variants, in order.
pub open spec fn variants_field_diagnostics(variants: Seq<Variant>, n: int) -> Seq<Diagnostic>
    decreases n,
{
    if n <= 0 {
        Seq::empty()
    } else {
        variants_field_diagnostics(variants, n - 1) + fields_diagnostics(
            variants[n - 1].fields@,
            (n - 1) as usize,
            variants[n - 1].fields@.len() as int,
        )
    }
}

/// One diagnostic for each `collect` attribute on each of the first `n`
/// variants, in order.
pub open spec fn variants_attr_diagnostics(variants: Seq<Variant>, n: int) -> Seq<Diagnostic>
    decreases n,
{
    if n <= 0 {
        Seq::empty()
    } else {
        variants_attr_diagnostics(variants, n - 1) + Seq::new(
            variants[n - 1].collect_attrs as nat,
            |i: int|
                Diagnostic {
                    kind: DiagnosticKind::AttributeOnVariant,
                    variant: (n - 1) as usize,
                    field: None,
                },
        )
    }
}

impl Declaration {
    /// What the options of the declaration give, or why it is refused.
    pub open spec fn options(&self) -> Result<Options, DeriveError> {
        if self.attrs@.len() > 1 {
            Err(DeriveError::MultipleAttributes)
        } else if self.attrs@.len() == 0 {
            Ok(Options { mode: None, bound: None, gc_lifetime: false })
        } else {
            read_options(self.attrs@[0]@, self.attrs@[0]@.len() as int)
        }
    }

    /// Why the declaration is refused, if it is.
    ///
    /// In the mode `RequireStatic` the type holds nothing of the heap's
    /// lifetime, so no lifetime has to be chosen and none is counted; the
    /// string given for `bound` is not read either.
    pub open spec fn refusal(&self) -> Option<DeriveError> {
        match self.options() {
            Err(e) => Some(e),
            Ok(o) => match o.mode {
                None => Some(DeriveError::MissingMode),
                Some(Mode::RequireStatic) => None,
                Some(_) => if o.bound == Some(false) {
                    Some(DeriveError::UnreadableBound)
                } else if !o.gc_lifetime && self.lifetimes > 1 {
                    Some(DeriveError::AmbiguousGcLifetime)
                } else {
                    None
                },
            },
        }
    }

    /// The diagnostics reported along with the implementation for `mode`:
    /// none in the mode `RequireStatic`, which looks at no field; otherwise
    /// those of the fields, then, for a tagged union, those of the variants.
    pub open spec fn diagnostics(&self, mode: Mode) -> Seq<Diagnostic> {
        if mode == Mode::RequireStatic {
            Seq::empty()
        } else {
            variants_field_diagnostics(self.variants@, self.variants@.len() as int) + if self.is_enum {
                variants_attr_diagnostics(self.variants@, self.variants@.len() as int)
            } else {
                Seq::empty()
            }
        }
    }

    /// `plan` is the implementation derived for the declaration.
    pub open spec fn derives(&self, plan: Plan) -> bool {
        let o = self.options()->Ok_0;
        let mode = o.mode->Some_0;
        let is_static = mode == Mode::RequireStatic;
        &&& plan.mode == mode
        &&& plan.where_clause == if is_static {
            WhereClause::SelfStatic
        } else if o.bound is Some {
            WhereClause::Override
        } else {
            WhereClause::Default
        }
        &&& plan.gc_lifetime == if is_static {
            GcLifetime::Any
        } else if o.gc_lifetime {
            GcLifetime::Explicit
        } else if self.lifetimes == 1 {
            GcLifetime::OnlyParameter
        } else {
            GcLifetime::Any
        }
        &&& plan.bound_parameters == (!is_static && o.bound is None)
        &&& plan.must_not_impl_drop == (mode == Mode::NoDrop)
        &&& plan.traced@.len() == self.variants@.len()
        &&& forall|v: int|
            0 <= v < self.variants@.len() ==> (#[trigger] plan.traced@[v])@.len()
                == self.variants@[v].fields@.len()
        &&& forall|v: int, f: int|
            0 <= v < self.variants@.len() && 0 <= f < self.variants@[v].fields@.len()
                ==> #[trigger] plan.traced@[v]@[f] == (!is_static && field_traced(
                self.variants@[v].fields@[f],
            ))
        &&& plan.diagnostics@ == self.diagnostics(mode)
    }
}

/// The message that reports a refusal.
pub open spec fn refusal_text(e: DeriveError) -> Seq<char> {
    match e {
        DeriveError::MultipleAttributes => "Cannot specify multiple `#[collect]` attributes! Consider merging them."@,
        DeriveError::MultipleBounds => "multiple bounds specified. `#[collect(...)]` requires one mode (`require_static`, `no_drop`, or `unsafe_drop`) and optionally `bound = \"...\"`."@,
        DeriveError::MultipleGcLifetimes => "multiple `'gc` lifetimes specified. `#[collect(...)]` requires one mode (`require_static`, `no_drop`, or `unsafe_drop`) and optionally `bound = \"...\"`."@,
        DeriveError::MultipleModes => "multiple modes specified. `#[collect(...)]` requires one mode (`require_static`, `no_drop`, or `unsafe_drop`) and optionally `bound = \"...\"`."@,
        DeriveError::UnknownOption => "unknown option. `#[collect(...)]` requires one mode (`require_static`, `no_drop`, or `unsafe_drop`) and optionally `bound = \"...\"`."@,
        DeriveError::MalformedOption => "unexpected token"@,
        DeriveError::MissingMode => "deriving `Collect` requires a `#[collect(...)]` attribute"@,
        DeriveError::UnreadableBound => "`#[collect]` failed to parse explicit trait bound expression"@,
        DeriveError::AmbiguousGcLifetime => "deriving `Collect` on a type with multiple lifetime parameters requires a `#[collect(gc_lifetime = ...)]` attribute"@,
    }
}

/// Returns the message that reports a refusal.
pub fn refusal_message(e: DeriveError) -> (m: &'static str)
    ensures
        m@ == refusal_text(e),
{
    match e {
        DeriveError::MultipleAttributes => "Cannot specify multiple `#[collect]` attributes! Consider merging them.",
        DeriveError::MultipleBounds => "multiple bounds specified. `#[collect(...)]` requires one mode (`require_static`, `no_drop`, or `unsafe_drop`) and optionally `bound = \"...\"`.",
        DeriveError::MultipleGcLifetimes => "multiple `'gc` lifetimes specified. `#[collect(...)]` requires one mode (`require_static`, `no_drop`, or `unsafe_drop`) and optionally `bound = \"...\"`.",
        DeriveError::MultipleModes => "multiple modes specified. `#[collect(...)]` requires one mode (`require_static`, `no_drop`, or `unsafe_drop`) and optionally `bound = \"...\"`.",
        DeriveError::UnknownOption => "unknown option. `#[collect(...)]` requires one mode (`require_static`, `no_drop`, or `unsafe_drop`) and optionally `bound = \"...\"`.",
        DeriveError::MalformedOption => "unexpected token",
        DeriveError::MissingMode => "deriving `Collect` requires a `#[collect(...)]` attribute",
        DeriveError::UnreadableBound => "`#[collect]` failed to parse explicit trait bound expression",
        DeriveError::AmbiguousGcLifetime => "deriving `Collect` on a type with multiple lifetime parameters requires a `#[collect(gc_lifetime = ...)]` attribute",
    }
}

/// Reads the options of the declaration's `collect` attribute, in order.
fn read_attribute(items: &Vec<MetaItem>) -> (r: Result<Options, DeriveError>)
    ensures
        r == read_options(items@, items@.len() as int),
{
    let mut seen = Options { mode: None, bound: None, gc_lifetime: false };
    let mut i: usize = 0;
    while i < items.len()
        invariant
            i <= items@.len(),
            read_options(items@, i as int) == Ok::<Options, DeriveError>(seen),
        decreases items@.len() - i,
    {
        let item = items[i];
        let next: Result<Options, DeriveError> = match item.name {
            OptionName::Missing => Err(DeriveError::MalformedOption),
            OptionName::Bound => {
                if seen.bound.is_some() {
                    Err(DeriveError::MultipleBounds)
                } else {
                    match item.arg {
                        OptionArg::Value => Ok(
                            Options { mode: seen.mode, bound: Some(true), gc_lifetime: seen.gc_lifetime },
                        ),
                        OptionArg::Unreadable => Ok(
                            Options { mode: seen.mode, bound: Some(false), gc_lifetime: seen.gc_lifetime },
                        ),
                        _ => Err(DeriveError::MalformedOption),
                    }
                }
            },
            OptionName::GcLifetime => {
                if seen.gc_lifetime {
                    Err(DeriveError::MultipleGcLifetimes)
                } else if item.arg == OptionArg::Value {
                    Ok(Options { mode: seen.mode, bound: seen.bound, gc_lifetime: true })
                } else {
                    Err(DeriveError::MalformedOption)
                }
            },
            name => {
                let mode = match name {
                    OptionName::RequireStatic => Some(Mode::RequireStatic),
                    OptionName::NoDrop => Some(Mode::NoDrop),
                    OptionName::UnsafeDrop => Some(Mode::UnsafeDrop),
                    _ => None,
                };
                if seen.mode.is_some() {
                    Err(DeriveError::MultipleModes)
                } else if mode.is_none() {
                    Err(DeriveError::UnknownOption)
                } else if item.arg != OptionArg::Bare {
                    Err(DeriveError::MalformedOption)
                } else {
                    Ok(Options { mode, bound: seen.bound, gc_lifetime: seen.gc_lifetime })
                }
            },
        };
        assert(next == read_option(seen, item));
        match next {
            Ok(o) => {
                seen = o;
            },
            Err(e) => {
                proof {
                    lemma_read_options_err(items@, i as int + 1, items@.len() as int);
                }
                return Err(e);
            },
        }
        i = i + 1;
    }
    Ok(seen)
}

/// Once an option is refused, the options after it change nothing.
proof fn lemma_read_options_err(items: Seq<MetaItem>, n: int, m: int)
    requires
        0 <= n <= m,
        read_options(items, n) is Err,
    ensures
        read_options(items, m) == read_options(items, n),
    decreases m - n,
{
    if n < m {
        lemma_read_options_err(items, n, m - 1);
    }
}

/// Whether a field's one attribute holds a bare `require_static` and nothing
/// else.
fn holds_only_require_static(items: &Vec<MetaItem>) -> (b: bool)
    ensures
        b == (items@.len() == 1 && is_field_option(items@[0])),
{
    items.len() == 1 && items[0].name == OptionName::RequireStatic && items[0].arg
        == OptionArg::Bare
}

/// Decides what the implementation derived for `decl` consists of, or why
/// `decl` is refused.
///
/// The declaration must carry exactly one `collect` attribute, naming exactly
/// one mode, with at most one `bound` and one `gc_lifetime`. In the mode
/// `RequireStatic` the implementation traces nothing. In the other modes
/// every field is traced but those marked with `require_static` alone, the heap's
/// lifetime is the one given, else the declaration's only lifetime parameter,
/// and two or more lifetime parameters without a choice are refused. Only the
/// mode `NoDrop` forbids custom cleanup code. What is wrong with a field or a
/// variant is reported with the implementation, and refuses nothing.
pub fn collect_derive(decl: &Declaration) -> (r: Result<Plan, DeriveError>)
    ensures
        match r {
            Ok(plan) => decl.refusal() is None && decl.derives(plan),
            Err(e) => decl.refusal() == Some(e),
        },
{
    if decl.attrs.len() > 1 {
        return Err(DeriveError::MultipleAttributes);
    }
    let options = if decl.attrs.len() == 0 {
        Options { mode: None, bound: None, gc_lifetime: false }
    } else {
        match read_attribute(&decl.attrs[0]) {
            Ok(o) => o,
            Err(e) => {
                return Err(e);
            },
        }
    };
    let mode = match options.mode {
        Some(mode) => mode,
        None => {
            return Err(DeriveError::MissingMode);
        },
    };
    let is_static = mode == Mode::RequireStatic;
    if !is_static {
        match options.bound {
            Some(false) => {
                return Err(DeriveError::UnreadableBound);
            },
            _ => {},
        }
        if !options.gc_lifetime && decl.lifetimes > 1 {
            return Err(DeriveError::AmbiguousGcLifetime);
        }
    }
    let mut traced: Vec<Vec<bool>> = Vec::new();
    let mut diagnostics: Vec<Diagnostic> = Vec::new();
    let mut v: usize = 0;
    while v < decl.variants.len()
        invariant
            v <= decl.variants@.len(),
            traced@.len() == v,
            forall|w: int| 0 <= w < v ==> (#[trigger] traced@[w])@.len() == decl.variants@[w].fields@.len(),
            forall|w: int, f: int|
                0 <= w < v && 0 <= f < decl.variants@[w].fields@.len() ==> #[trigger] traced@[w]@[f]
                    == (!is_static && field_traced(decl.variants@[w].fields@[f])),
            diagnostics@ == if is_static {
                Seq::<Diagnostic>::empty()
            } else {
                variants_field_diagnostics(decl.variants@, v as int)
            },
        decreases decl.variants@.len() - v,
    {
        let variant = &decl.variants[v];
        let mut row: Vec<bool> = Vec::new();
        let mut f: usize = 0;
        let ghost before = diagnostics@;
        while f < variant.fields.len()
            invariant
                f <= variant.fields@.len(),
                row@.len() == f,
                forall|g: int|
                    0 <= g < f ==> #[trigger] row@[g] == (!is_static && field_traced(
                        variant.fields@[g],
                    )),
                diagnostics@ == if is_static {
                    Seq::<Diagnostic>::empty()
                } else {
                    before + fields_diagnostics(variant.fields@, v, f as int)
                },
                before == if is_static {
                    Seq::<Diagnostic>::empty()
                } else {
                    variants_field_diagnostics(decl.variants@, v as int)
                },
            decreases variant.fields@.len() - f,
        {
            let field = &variant.fields[f];
            let ghost so_far = diagnostics@;
            let mut keep = false;
            if !is_static {
                if field.attrs.len() == 0 {
                    keep = true;
                } else if field.attrs.len() > 1 {
                    keep = true;
                    diagnostics.push(
                        Diagnostic { kind: DiagnosticKind::MultipleAttributes, variant: v, field: Some(f) },
                    );
                } else {
                    let exempt = holds_only_require_static(&field.attrs[0]);
                    keep = !exempt;
                    if !exempt && field.attrs[0].len() > 0 {
                        diagnostics.push(
                            Diagnostic {
                                kind: DiagnosticKind::OnlyRequireStaticOnField,
                                variant: v,
                                field: Some(f),
                            },
                        );
                    }
                }
                proof {
                    let next = fields_diagnostics(variant.fields@, v, f as int + 1);
                    assert(diagnostics@ =~= before + next);
                }
            }
            row.push(keep);
            f = f + 1;
        }
        traced.push(row);
        v = v + 1;
        proof {
            if !is_static {
                assert(diagnostics@ =~= variants_field_diagnostics(decl.variants@, v as int));
            }
        }
    }
    if !is_static && decl.is_enum {
        let ghost fields_part = diagnostics@;
        let mut w: usize = 0;
        while w < decl.variants.len()
            invariant
                w <= decl.variants@.len(),
                diagnostics@ == fields_part + variants_attr_diagnostics(decl.variants@, w as int),
            decreases decl.variants@.len() - w,
        {
            let n = decl.variants[w].collect_attrs;
            let ghost start = diagnostics@;
            let mut i: usize = 0;
            while i < n
                invariant
                    i <= n,
                    w < decl.variants@.len(),
                    n == decl.variants@[w as int].collect_attrs,
                    diagnostics@ == start + Seq::new(
                        i as nat,
                        |j: int|
                            Diagnostic {
                                kind: DiagnosticKind::AttributeOnVariant,
                                variant: w,
                                field: None,
                            },
                    ),
                decreases n - i,
            {
                diagnostics.push(
                    Diagnostic { kind: DiagnosticKind::AttributeOnVariant, variant: w, field: None },
                );
                proof {
                    assert(diagnostics@ =~= start + Seq::new(
                        (i + 1) as nat,
                        |j: int|
                            Diagnostic {
                                kind: DiagnosticKind::AttributeOnVariant,
                                variant: w,
                                field: None,
                            },
                    ));
                }
                i = i + 1;
            }
            w = w + 1;
            proof {
                assert(diagnostics@ =~= fields_part + variants_attr_diagnostics(
                    decl.variants@,
                    w as int,
                ));
            }
        }
    }
    proof {
        assert(diagnostics@ =~= decl.diagnostics(mode));
    }
    Ok(
        Plan {
            mode,
            where_clause: if is_static {
                WhereClause::SelfStatic
            } else if options.bound.is_some() {
                WhereClause::Override
            } else {
                WhereClause::Default
            },
            gc_lifetime: if is_static {
                GcLifetime::Any
            } else if options.gc_lifetime {
                GcLifetime::Explicit
            } else if decl.lifetimes == 1 {
                GcLifetime::OnlyParameter
            } else {
                GcLifetime::Any
            },
            bound_parameters: !is_static && options.bound.is_none(),
            traced,
            must_not_impl_drop: mode == Mode::NoDrop,
            diagnostics,
        },
    )
}

} // verus!
