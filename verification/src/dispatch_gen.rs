//! Which variants of a subsystem message enum receive network events: the
//! rules of the `subsystem_dispatch_gen` attribute, on the shape of the enum.
//! A variant marked `#[skip]` receives none; any other variant receives them
//! through its wrapped type (its first unnamed field, or its field named
//! `inner`), and a variant with no such type must be marked.

use vstd::prelude::*;
use vstd::string::*;
use crate::cli::str_eq;
use quote::ToTokens;
use syn::Fields::{Named, Unit, Unnamed};
use syn::{parse_str, ItemEnum, Path};

verus! {

/// A field of a variant: its name, if it has one, and its type as written.
pub struct FieldShape {
    pub name: Option<String>,
    pub ty: String,
}

/// The fields of a variant.
pub enum FieldsShape {
    /// `{ name: Type, .. }`
    Named(Vec<FieldShape>),
    /// `(Type, ..)`
    Unnamed(Vec<FieldShape>),
    /// No fields.
    Unit,
}

/// An enum variant: its name, the paths of its attributes, and its fields.
pub struct VariantShape {
    pub name: String,
    pub attrs: Vec<String>,
    pub fields: FieldsShape,
}

/// A field by the views of its parts: its name, if it has one, and its type.
pub type FieldView = (Option<Seq<char>>, Seq<char>);

/// The fields of a variant by the views of their parts.
pub enum FieldsView {
    Named(Seq<FieldView>),
    Unnamed(Seq<FieldView>),
    Unit,
}

/// A variant by the views of its parts: name, attribute paths, fields.
pub type VariantView = (Seq<char>, Seq<Seq<char>>, FieldsView);

/// The view of a field.
pub open spec fn field_view(f: FieldShape) -> FieldView {
    (
        match f.name {
            Some(n) => Some(n@),
            None => None,
        },
        f.ty@,
    )
}

/// The views of a list of fields.
pub open spec fn field_views(fs: Seq<FieldShape>) -> Seq<FieldView> {
    fs.map_values(|f: FieldShape| field_view(f))
}

/// The view of a variant's fields.
pub open spec fn fields_view(f: FieldsShape) -> FieldsView {
    match f {
        FieldsShape::Named(fs) => FieldsView::Named(field_views(fs@)),
        FieldsShape::Unnamed(fs) => FieldsView::Unnamed(field_views(fs@)),
        FieldsShape::Unit => FieldsView::Unit,
    }
}

/// The view of a variant.
pub open spec fn variant_view(v: VariantShape) -> VariantView {
    (v.name@, views(v.attrs@), fields_view(v.fields))
}

/// The views of a list of variants.
pub open spec fn variant_views(vs: Seq<VariantShape>) -> Seq<VariantView> {
    vs.map_values(|v: VariantShape| variant_view(v))
}

/// A variant as it is emitted: without its `skip` attributes.
pub open spec fn cleaned_view(v: VariantView) -> VariantView {
    (v.0, without_skip(v.1), v.2)
}

/// An enum variant without the base type, with the wrapped type that events
/// are converted into. Nothing is dispatched to it when `inner` is `None`.
pub struct EnumVariantDispatch {
    /// variant name
    pub name: String,
    /// The inner type for which a `From::from` impl is anticipated from the input type.
    pub inner: Option<String>,
}

/// Why a variant cannot be dispatched to.
#[derive(Debug, Clone, Copy, PartialEq, Eq, Structural)]
pub enum DispatchGenError {
    /// A struct-like variant without a field named `inner`.
    NoInnerField,
    /// A tuple variant without fields.
    NoUnnamedField,
    /// A unit variant that is not marked `#[skip]`.
    UnitNotSkipped,
}

/// The message reported for an error.
pub open spec fn error_message(e: DispatchGenError) -> Seq<char> {
    match e {
        DispatchGenError::NoInnerField => "To dispatch with struct enum variant, one element must named `inner`"@,
        DispatchGenError::NoUnnamedField => "Must be annotated with skip, even if no inner types exist."@,
        DispatchGenError::UnitNotSkipped => "Must be annotated with #[skip]."@,
    }
}

impl DispatchGenError {
    /// The message reported at the variant's name.
    pub fn message(&self) -> (r: String)
        ensures
            r@ == error_message(*self),
    {
        match self {
            DispatchGenError::NoInnerField => String::from_str(
                "To dispatch with struct enum variant, one element must named `inner`",
            ),
            DispatchGenError::NoUnnamedField => String::from_str(
                "Must be annotated with skip, even if no inner types exist.",
            ),
            DispatchGenError::UnitNotSkipped => String::from_str("Must be annotated with #[skip]."),
        }
    }
}

/// The attributes other than `skip`, in order.
pub open spec fn without_skip(attrs: Seq<Seq<char>>) -> Seq<Seq<char>> {
    attrs.filter(|a: Seq<char>| a != "skip"@)
}

/// The views of a list of strings.
pub open spec fn views(v: Seq<String>) -> Seq<Seq<char>> {
    v.map_values(|s: String| s@)
}

/// Whether a field is named `inner`.
pub open spec fn named_inner(f: FieldView) -> bool {
    f.0 == Some("inner"@)
}

/// The first field of `fields` named `inner`, as an index.
pub open spec fn is_first_inner(fields: Seq<FieldView>, k: int) -> bool {
    &&& 0 <= k < fields.len()
    &&& named_inner(fields[k])
    &&& forall|j: int| 0 <= j < k ==> !named_inner(#[trigger] fields[j])
}

/// The type of the first field of `fs` named `inner`, if there is one.
pub open spec fn inner_type(fs: Seq<FieldView>) -> Option<Seq<char>> {
    if exists|k: int| is_first_inner(fs, k) {
        Some(fs[choose|k: int| is_first_inner(fs, k)].1)
    } else {
        None
    }
}

/// What preparing a variant with these fields gives, the skip mark being
/// `skip`: the wrapped type's text (`None` for a skipped variant), or the
/// error.
pub open spec fn prepare_result(fields: FieldsView, skip: bool) -> Result<Option<Seq<char>>, DispatchGenError> {
    if skip {
        Ok(None)
    } else {
        match fields {
            FieldsView::Named(fs) => match inner_type(fs) {
                Some(t) => Ok(Some(t)),
                None => Err(DispatchGenError::NoInnerField),
            },
            FieldsView::Unnamed(fs) => if fs.len() == 0 {
                Err(DispatchGenError::NoUnnamedField)
            } else {
                Ok(Some(fs[0].1))
            },
            FieldsView::Unit => Err(DispatchGenError::UnitNotSkipped),
        }
    }
}

/// An unskipped tuple variant with at least one field wraps the type of its
/// first field, whatever fields follow it.
pub proof fn tuple_variant_wraps_first_field(first: FieldView, rest: Seq<FieldView>)
    ensures
        prepare_result(FieldsView::Unnamed(seq![first] + rest), false) == Ok::<
            Option<Seq<char>>,
            DispatchGenError,
        >(Some(first.1)),
{
    assert((seq![first] + rest)[0] == first);
}

/// An unskipped struct-like variant wraps the type of its first field named
/// `inner`, and fails when no field has that name.
pub proof fn struct_variant_wraps_first_inner(fields: Seq<FieldView>)
    ensures
        forall|k: int|
            #![trigger fields[k]]
            0 <= k < fields.len() && fields[k].0 == Some("inner"@) && (forall|j: int|
                0 <= j < k ==> fields[j].0 != Some("inner"@)) ==> prepare_result(
                FieldsView::Named(fields),
                false,
            ) == Ok::<Option<Seq<char>>, DispatchGenError>(Some(fields[k].1)),
        (forall|j: int| 0 <= j < fields.len() ==> fields[j].0 != Some("inner"@)) ==> prepare_result(
            FieldsView::Named(fields),
            false,
        ) == Err::<Option<Seq<char>>, DispatchGenError>(DispatchGenError::NoInnerField),
{
    assert forall|k: int|
        0 <= k < fields.len() && fields[k].0 == Some("inner"@) && (forall|j: int|
            0 <= j < k ==> fields[j].0 != Some("inner"@)) implies prepare_result(
        FieldsView::Named(fields),
        false,
    ) == Ok::<Option<Seq<char>>, DispatchGenError>(Some(fields[k].1)) by {
        assert(is_first_inner(fields, k));
        let c = choose|c: int| is_first_inner(fields, c);
        if c < k {
            assert(!named_inner(fields[c]));
        } else if k < c {
            assert(!named_inner(fields[k]));
        }
    }
    if forall|j: int| 0 <= j < fields.len() ==> fields[j].0 != Some("inner"@) {
        if exists|k: int| is_first_inner(fields, k) {
            let c = choose|c: int| is_first_inner(fields, c);
            assert(named_inner(fields[c]));
        }
    }
}

/// A variant marked `#[skip]` is prepared without a wrapped type, whatever
/// its fields.
pub proof fn skipped_variant_wraps_nothing(fields: FieldsView)
    ensures
        prepare_result(fields, true) == Ok::<Option<Seq<char>>, DispatchGenError>(None),
{
}

/// Fields after the first one of an unskipped tuple variant do not change
/// what preparing it gives.
pub proof fn tuple_variant_ignores_later_fields(fields: Seq<FieldView>, more: Seq<FieldView>)
    requires
        fields.len() > 0,
    ensures
        prepare_result(FieldsView::Unnamed(fields + more), false) == prepare_result(
            FieldsView::Unnamed(fields),
            false,
        ),
{
    assert((fields + more)[0] == fields[0]);
}

/// Whether a variant is marked `#[skip]`.
pub open spec fn is_skipped(v: VariantView) -> bool {
    v.1.contains("skip"@)
}

/// The outcome of a prepared variant, by the views of its parts.
pub open spec fn dispatch_view(r: Result<EnumVariantDispatch, DispatchGenError>) -> Result<Option<Seq<char>>, DispatchGenError> {
    match r {
        Ok(d) => Ok(
            match d.inner {
                Some(t) => Some(t@),
                None => None,
            },
        ),
        Err(e) => Err(e),
    }
}

fn copy_string(s: &String) -> (r: String)
    ensures
        r@ == s@,
{
    String::from_str(s.as_str())
}

fn find_inner(fs: &Vec<FieldShape>) -> (r: Option<usize>)
    ensures
        match r {
            Some(k) => is_first_inner(field_views(fs@), k as int),
            None => forall|k: int|
                0 <= k < fs@.len() ==> !named_inner(#[trigger] field_views(fs@)[k]),
        },
{
    let mut i: usize = 0;
    while i < fs.len()
        invariant
            i <= fs@.len(),
            forall|j: int| 0 <= j < i ==> !named_inner(#[trigger] field_views(fs@)[j]),
        decreases fs.len() - i,
    {
        let hit = match &fs[i].name {
            Some(n) => str_eq(n.as_str(), "inner"),
            None => false,
        };
        assert(hit == named_inner(field_views(fs@)[i as int]));
        if hit {
            return Some(i);
        }
        i = i + 1;
    }
    None
}

/// Prepares a variant: drops its `#[skip]` attributes and finds the type
/// events are converted into. A skipped variant gets none; a tuple variant
/// gets its first field's type; a struct-like variant gets the type of its
/// field named `inner`; anything else is an error.
pub fn prepare_enum_variant(variant: &mut VariantShape) -> (r: Result<EnumVariantDispatch, DispatchGenError>)
    ensures
        final(variant).name == old(variant).name,
        final(variant).fields == old(variant).fields,
        views(final(variant).attrs@) == without_skip(views(old(variant).attrs@)),
        dispatch_view(r) == prepare_result(fields_view(old(variant).fields), is_skipped(variant_view(*old(variant)))),
        r matches Ok(d) ==> d.name@ == old(variant).name@,
{
    let ghost attrs0 = views(variant.attrs@);
    let mut skip = false;
    let mut kept: Vec<String> = Vec::new();
    let mut i: usize = 0;
    while i < variant.attrs.len()
        invariant
            i <= variant.attrs@.len(),
            attrs0 == views(variant.attrs@),
            skip == attrs0.subrange(0, i as int).contains("skip"@),
            views(kept@) == without_skip(attrs0.subrange(0, i as int)),
        decreases variant.attrs.len() - i,
    {
        let ghost prefix = attrs0.subrange(0, i as int);
        proof {
            assert(attrs0.subrange(0, i + 1) =~= prefix.push(attrs0[i as int]));
            vstd::seq_lib::lemma_seq_contains_after_push(prefix, attrs0[i as int], "skip"@);
            reveal(Seq::filter);
            assert(without_skip(prefix.push(attrs0[i as int])) == if attrs0[i as int] != "skip"@ {
                without_skip(prefix).push(attrs0[i as int])
            } else {
                without_skip(prefix)
            }) by {
                assert(prefix.push(attrs0[i as int]).drop_last() =~= prefix);
            }
        }
        if str_eq(variant.attrs[i].as_str(), "skip") {
            skip = true;
        } else {
            let a = copy_string(&variant.attrs[i]);
            kept.push(a);
            proof {
                assert(views(kept@) =~= without_skip(prefix).push(attrs0[i as int]));
            }
        }
        i = i + 1;
    }
    proof {
        assert(attrs0.subrange(0, attrs0.len() as int) =~= attrs0);
    }
    variant.attrs = kept;
    let name = copy_string(&variant.name);
    let inner: Option<String> = match &variant.fields {
        FieldsShape::Named(fs) => {
            if skip {
                None
            } else {
                match find_inner(fs) {
                    Some(k) => {
                        proof {
                            let fv = field_views(fs@);
                            assert forall|j: int| is_first_inner(fv, j) implies j == k by {
                                if j < k {
                                    assert(!named_inner(fv[j]));
                                } else if j > k {
                                    assert(!named_inner(fv[k as int]));
                                }
                            }
                        }
                        Some(copy_string(&fs[k].ty))
                    },
                    None => {
                        return Err(DispatchGenError::NoInnerField);
                    },
                }
            }
        },
        FieldsShape::Unnamed(fs) => {
            if skip {
                None
            } else if fs.len() == 0 {
                return Err(DispatchGenError::NoUnnamedField);
            } else {
                assert(field_views(fs@)[0].1 == fs@[0].ty@);
                Some(copy_string(&fs[0].ty))
            }
        },
        FieldsShape::Unit => {
            if skip {
                None
            } else {
                return Err(DispatchGenError::UnitNotSkipped);
            }
        },
    };
    Ok(EnumVariantDispatch { name, inner })
}

/// A variant that receives events, with the enum it belongs to.
pub struct EnumVariantDispatchWithTy {
    /// enum ty name
    pub ty: String,
    /// variant
    pub variant: EnumVariantDispatch,
}

/// The variants of an enum that receive events, each as its name and wrapped
/// type, in order; or the error of the first variant that cannot be prepared.
pub open spec fn dispatch_result(vs: Seq<VariantView>) -> Result<Seq<(Seq<char>, Seq<char>)>, DispatchGenError>
    decreases vs.len(),
{
    if vs.len() == 0 {
        Ok(Seq::empty())
    } else {
        match dispatch_result(vs.drop_last()) {
            Err(e) => Err(e),
            Ok(acc) => match prepare_result(vs.last().2, is_skipped(vs.last())) {
                Err(e) => Err(e),
                Ok(None) => Ok(acc),
                Ok(Some(t)) => Ok(acc.push((vs.last().0, t))),
            },
        }
    }
}

/// The dispatched variants by the views of their parts.
pub open spec fn dispatched_view(v: Seq<EnumVariantDispatchWithTy>) -> Seq<(Seq<char>, Seq<char>)> {
    v.map_values(
        |d: EnumVariantDispatchWithTy|
            (
                d.variant.name@,
                match d.variant.inner {
                    Some(t) => t@,
                    None => Seq::empty(),
                },
            ),
    )
}

/// Prepares every variant of the message enum `message_enum`, in order, and
/// gives back the variants without their `#[skip]` attributes together with
/// those that receive events; stops at the first variant that cannot be
/// prepared.
pub fn impl_subsystem_dispatch_gen(message_enum: &String, variants: Vec<VariantShape>) -> (r: Result<
    (Vec<VariantShape>, Vec<EnumVariantDispatchWithTy>),
    DispatchGenError,
>)
    ensures
        r is Ok <==> dispatch_result(variant_views(variants@)) is Ok,
        r matches Err(e) ==> dispatch_result(variant_views(variants@)) == Err::<
            Seq<(Seq<char>, Seq<char>)>,
            DispatchGenError,
        >(e),
        r matches Ok(out) ==> {
            let (cleaned, dispatched) = out;
            &&& dispatched_view(dispatched@) == dispatch_result(variant_views(variants@))->Ok_0
            &&& forall|k: int| 0 <= k < dispatched@.len() ==> (#[trigger] dispatched@[k]).ty@ == message_enum@
            &&& cleaned@.len() == variants@.len()
            &&& forall|k: int|
                0 <= k < variants@.len() ==> {
                    &&& (#[trigger] cleaned@[k]).name == variants@[k].name
                    &&& cleaned@[k].fields == variants@[k].fields
                    &&& views(cleaned@[k].attrs@) == without_skip(views(variants@[k].attrs@))
                    &&& variant_view(cleaned@[k]) == cleaned_view(variant_view(variants@[k]))
                }
        },
{
    let ghost vs = variants@;
    let ghost vv = variant_views(vs);
    let total = variants.len();
    assert(vs.len() == total);
    let mut rest = variants;
    let mut cleaned: Vec<VariantShape> = Vec::new();
    let mut dispatched: Vec<EnumVariantDispatchWithTy> = Vec::new();
    let mut i: usize = 0;
    proof {
        assert(vv.subrange(0, 0) =~= Seq::<VariantView>::empty());
        assert(dispatched_view(dispatched@) =~= Seq::<(Seq<char>, Seq<char>)>::empty());
    }
    while rest.len() > 0
        invariant
            vs == variants@,
            vv == variant_views(vs),
            vs.len() <= usize::MAX,
            i + rest@.len() == vs.len(),
            rest@ == vs.subrange(i as int, vs.len() as int),
            cleaned@.len() == i,
            forall|k: int|
                0 <= k < i ==> {
                    &&& (#[trigger] cleaned@[k]).name == vs[k].name
                    &&& cleaned@[k].fields == vs[k].fields
                    &&& views(cleaned@[k].attrs@) == without_skip(views(vs[k].attrs@))
                },
            forall|k: int| 0 <= k < dispatched@.len() ==> (#[trigger] dispatched@[k]).ty@ == message_enum@,
            dispatch_result(vv.subrange(0, i as int)) == Ok::<Seq<(Seq<char>, Seq<char>)>, DispatchGenError>(
                dispatched_view(dispatched@),
            ),
        decreases rest.len(),
    {
        let mut v = rest.remove(0);
        let ghost v0 = v;
        proof {
            assert(v0 == vs[i as int]);
            assert(vv.subrange(0, i + 1).drop_last() =~= vv.subrange(0, i as int));
            assert(vv.subrange(0, i + 1).last() == variant_view(v0));
        }
        let prepared = prepare_enum_variant(&mut v);
        match prepared {
            Err(e) => {
                proof {
                    assert(dispatch_result(vv.subrange(0, i + 1)) == Err::<
                        Seq<(Seq<char>, Seq<char>)>,
                        DispatchGenError,
                    >(e));
                    lemma_dispatch_error_stays(vv, i as int + 1);
                    assert(dispatch_result(vv) == Err::<Seq<(Seq<char>, Seq<char>)>, DispatchGenError>(e));
                }
                return Err(e);
            },
            Ok(d) => {
                if d.inner.is_some() {
                    let ty = copy_string(message_enum);
                    let ghost before = dispatched@;
                    dispatched.push(EnumVariantDispatchWithTy { ty, variant: d });
                    proof {
                        assert(dispatched_view(dispatched@) =~= dispatched_view(before).push(
                            (dispatched@.last().variant.name@, dispatched@.last().variant.inner->0@),
                        ));
                    }
                }
            },
        }
        cleaned.push(v);
        i = i + 1;
        proof {
            assert(rest@ =~= vs.subrange(i as int, vs.len() as int));
        }
    }
    proof {
        assert(vv.subrange(0, vv.len() as int) =~= vv);
        assert forall|k: int| 0 <= k < vs.len() implies variant_view(#[trigger] cleaned@[k])
            == cleaned_view(variant_view(vs[k])) by {}
    }
    Ok((cleaned, dispatched))
}

/// The event type path that the attribute's source parses to (with `syn`),
/// printed back as tokens; `None` when it is not a path.
pub uninterp spec fn event_path_of(attr: Seq<char>) -> Option<Seq<char>>;

/// The enum that the item's source parses to (with `syn`): its name, and
/// each variant's name and attribute paths printed back as tokens; `None`
/// when it is not an enum.
pub uninterp spec fn variant_heads_of(item: Seq<char>) -> Option<(Seq<char>, Seq<(Seq<char>, Seq<Seq<char>>)>)>;

/// The fields of each variant of the enum that the item's source parses to
/// (with `syn`), names and types printed back as tokens; `None` when it is
/// not an enum.
pub uninterp spec fn variant_fields_of(item: Seq<char>) -> Option<Seq<FieldsView>>;

/// The enum that the item's source parses to: its name and its variants.
pub open spec fn message_enum_of(item: Seq<char>) -> Option<(Seq<char>, Seq<VariantView>)> {
    match (variant_heads_of(item), variant_fields_of(item)) {
        (Some(h), Some(fs)) => if h.1.len() == fs.len() {
            Some((h.0, Seq::new(fs.len(), |k: int| (h.1[k].0, h.1[k].1, fs[k]))))
        } else {
            None
        },
        _ => None,
    }
}

/// `syn::parse_str::<syn::Path>` on the attribute's source, printed back
/// with `ToTokens`. Trusted: the result is a function of the source alone.
#[verifier::external_body]
fn parse_event_path(attr: &str) -> (r: Option<String>)
    ensures
        match r {
            Some(p) => event_path_of(attr@) == Some(p@),
            None => event_path_of(attr@) is None,
        },
{
    match parse_str::<Path>(attr) {
        Ok(path) => Some(path.to_token_stream().to_string()),
        Err(_) => None,
    }
}

/// The views of a parsed enum's variant heads.
pub open spec fn head_views(hs: Seq<(String, Vec<String>)>) -> Seq<(Seq<char>, Seq<Seq<char>>)> {
    hs.map_values(|h: (String, Vec<String>)| (h.0@, views(h.1@)))
}

/// `syn::parse_str::<syn::ItemEnum>` on the item's source, with the enum's
/// name and each variant's name and attribute paths printed back. Trusted:
/// the result is a function of the source alone.
#[verifier::external_body]
fn parse_variant_heads(item: &str) -> (r: Option<(String, Vec<(String, Vec<String>)>)>)
    ensures
        match r {
            Some(p) => variant_heads_of(item@) == Some((p.0@, head_views(p.1@))),
            None => variant_heads_of(item@) is None,
        },
{
    let ie = parse_str::<ItemEnum>(item).ok()?;
    let text = |t: &dyn ToTokens| t.to_token_stream().to_string();
    let heads = ie.variants.iter().map(|v| (text(&v.ident), v.attrs.iter().map(|a| text(&a.path)).collect()));
    Some((text(&ie.ident), heads.collect()))
}

/// `syn::parse_str::<syn::ItemEnum>` on the item's source, with each
/// variant's fields (names and types printed back). Trusted: the result is a
/// function of the source alone, and, being the same parse as
/// `parse_variant_heads`, it has one entry per variant exactly when that one
/// parses.
#[verifier::external_body]
fn parse_variant_fields(item: &str) -> (r: Option<Vec<FieldsShape>>)
    ensures
        match r {
            Some(fs) => variant_fields_of(item@) == Some(fs@.map_values(|f: FieldsShape| fields_view(f))),
            None => variant_fields_of(item@) is None,
        },
        r matches Some(fs) ==> variant_heads_of(item@) matches Some(h) && h.1.len() == fs@.len(),
        r is None ==> variant_heads_of(item@) is None,
{
    let ie = parse_str::<ItemEnum>(item).ok()?;
    let text = |t: &dyn ToTokens| t.to_token_stream().to_string();
    Some(ie.variants.iter().map(|v| {
        let fs = v.fields.iter().map(|f| FieldShape { name: f.ident.as_ref().map(|i| text(i)), ty: text(&f.ty) });
        match v.fields {
            Named(_) => FieldsShape::Named(fs.collect()),
            Unnamed(_) => FieldsShape::Unnamed(fs.collect()),
            Unit => FieldsShape::Unit,
        }
    }).collect())
}

/// The enum that the item's source parses to, assembled from its variant
/// heads and fields.
fn parse_message_enum(item: &str) -> (r: Option<(String, Vec<VariantShape>)>)
    ensures
        match r {
            Some(parsed) => message_enum_of(item@) == Some((parsed.0@, variant_views(parsed.1@))),
            None => message_enum_of(item@) is None,
        },
        r is None <==> variant_heads_of(item@) is None,
{
    let (name, mut heads) = match parse_variant_heads(item) {
        Some(h) => h,
        None => return None,
    };
    let mut fields = match parse_variant_fields(item) {
        Some(f) => f,
        None => return None,
    };
    if heads.len() != fields.len() {
        return None;
    }
    let total = heads.len();
    let ghost h0 = heads@;
    let ghost f0 = fields@;
    let ghost n = h0.len();
    let ghost hv = head_views(h0);
    let ghost fv = f0.map_values(|f: FieldsShape| fields_view(f));
    let mut out: Vec<VariantShape> = Vec::new();
    let mut i: usize = 0;
    while heads.len() > 0
        invariant
            n == h0.len(),
            n == total,
            n == f0.len(),
            hv == head_views(h0),
            fv == f0.map_values(|f: FieldsShape| fields_view(f)),
            i + heads@.len() == n,
            heads@.len() == fields@.len(),
            heads@ == h0.subrange(i as int, n as int),
            fields@ == f0.subrange(i as int, n as int),
            out@.len() == i,
            forall|k: int| 0 <= k < i ==> variant_view(#[trigger] out@[k]) == (hv[k].0, hv[k].1, fv[k]),
        decreases heads@.len(),
    {
        let (vname, attrs) = heads.remove(0);
        let f = fields.remove(0);
        proof {
            assert(h0[i as int] == (vname, attrs));
            assert(f0[i as int] == f);
        }
        out.push(VariantShape { name: vname, attrs, fields: f });
        i = i + 1;
        proof {
            assert(heads@ =~= h0.subrange(i as int, n as int));
            assert(fields@ =~= f0.subrange(i as int, n as int));
        }
    }
    proof {
        assert(variant_views(out@) =~= Seq::new(n, |k: int| (hv[k].0, hv[k].1, fv[k])));
    }
    Some((name, out))
}

/// Why the attribute's source cannot produce a dispatcher.
#[derive(Debug, Clone, Copy, PartialEq, Eq, Structural)]
pub enum DispatchSourceError {
    /// The attribute is not a path, or the item is not an enum.
    Parse,
    /// A variant cannot be dispatched to.
    Variant(DispatchGenError),
}

/// The attribute `subsystem_dispatch_gen` on its source text: parses the
/// event type and the message enum, then prepares the enum's variants.
/// Returns the event type, the enum's name, the variants as emitted (without
/// `#[skip]`) and the variants that receive events.
pub fn subsystem_dispatch_gen_from_source(attr: &str, item: &str) -> (r: Result<
    (String, String, Vec<VariantShape>, Vec<EnumVariantDispatchWithTy>),
    DispatchSourceError,
>)
    ensures
        r == Err::<(String, String, Vec<VariantShape>, Vec<EnumVariantDispatchWithTy>), DispatchSourceError>(
            DispatchSourceError::Parse,
        ) <==> (event_path_of(attr@) is None || message_enum_of(item@) is None),
        r == Err::<(String, String, Vec<VariantShape>, Vec<EnumVariantDispatchWithTy>), DispatchSourceError>(
            DispatchSourceError::Parse,
        ) <==> (event_path_of(attr@) is None || variant_heads_of(item@) is None),
        r matches Err(DispatchSourceError::Variant(e)) ==> message_enum_of(item@) matches Some(m)
            && dispatch_result(m.1) == Err::<Seq<(Seq<char>, Seq<char>)>, DispatchGenError>(e),
        r matches Ok(out) ==> {
            &&& event_path_of(attr@) == Some(out.0@)
            &&& message_enum_of(item@) matches Some(m) && {
                &&& m.0 == out.1@
                &&& dispatch_result(m.1) is Ok
                &&& dispatched_view(out.3@) == dispatch_result(m.1)->Ok_0
                &&& forall|k: int| 0 <= k < out.3@.len() ==> (#[trigger] out.3@[k]).ty@ == m.0
                &&& out.2@.len() == m.1.len()
                &&& forall|k: int|
                    0 <= k < m.1.len() ==> variant_view(#[trigger] out.2@[k]) == cleaned_view(m.1[k])
            }
        },
{
    let path = match parse_event_path(attr) {
        Some(p) => p,
        None => return Err(DispatchSourceError::Parse),
    };
    let (name, variants) = match parse_message_enum(item) {
        Some(parsed) => parsed,
        None => return Err(DispatchSourceError::Parse),
    };
    let ghost vs = variants@;
    match impl_subsystem_dispatch_gen(&name, variants) {
        Ok((cleaned, dispatched)) => {
            proof {
                assert forall|k: int| 0 <= k < vs.len() implies variant_view(#[trigger] cleaned@[k])
                    == cleaned_view(variant_views(vs)[k]) by {}
            }
            Ok((path, name, cleaned, dispatched))
        },
        Err(e) => Err(DispatchSourceError::Variant(e)),
    }
}

/// Once a prefix of the variants fails, every longer prefix fails the same way.
proof fn lemma_dispatch_error_stays(vs: Seq<VariantView>, n: int)
    requires
        0 <= n <= vs.len(),
        dispatch_result(vs.subrange(0, n)) is Err,
    ensures
        dispatch_result(vs) == dispatch_result(vs.subrange(0, n)),
    decreases vs.len() - n,
{
    if n < vs.len() {
        assert(vs.subrange(0, n + 1).drop_last() =~= vs.subrange(0, n));
        lemma_dispatch_error_stays(vs, n + 1);
    } else {
        assert(vs.subrange(0, n) =~= vs);
    }
}

} // verus!
