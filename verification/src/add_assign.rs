//! What `#[derive(AddAssign)]` generates for the item it is applied to: the
//! item's source text is read with `syn` into plain values, and the type
//! added and the body of `add_assign` are decided on those. Writing out the
//! impl is left to the macro that wraps this module.

use vstd::prelude::*;
use quote::ToTokens;

verus! {

/// The fields of a struct.
#[derive(Debug)]
pub enum FieldsShape {
    Unit,
    /// A tuple struct with this many fields.
    Unnamed(usize),
    /// A struct with fields of these names.
    Named(Vec<String>),
}

/// The kind of type the derive is applied to.
#[derive(Debug)]
pub enum DataShape {
    Struct(FieldsShape),
    Enum,
    Union,
}

/// One entry of an `#[add_assign(...)]` attribute.
#[derive(Debug)]
pub enum MetaItem {
    /// `rhs = "T"` with `T` a type, written as its source text.
    Rhs(String),
    /// `rhs` without a string literal, with a suffixed one, or with one
    /// that does not hold a type.
    RhsMalformed,
    /// Any other entry.
    Other,
}

/// Why an `#[add_assign(...)]` attribute is refused.
#[derive(Debug, Clone, Copy, PartialEq, Eq, Structural)]
pub enum RhsAttrError {
    /// An entry other than `rhs = "..."`.
    Expected,
    /// `rhs` is given a value that is not a string holding a type.
    Malformed,
    /// No `rhs` entry.
    Missing,
    /// The entries could not be read as a list of `name = value` entries.
    Unreadable,
}

/// The type added to `self`.
#[derive(Debug)]
pub enum RhsType {
    /// `Self`, when no attribute names another type.
    SelfType,
    /// The type named by the attribute, as source text.
    Given(String),
}

/// The body of the generated `add_assign`.
#[derive(Debug)]
pub enum AddAssignBody {
    /// Nothing is added: the struct has no field.
    Empty,
    /// `self.0 += rhs`.
    TupleField,
    /// `self.<name> += rhs;`.
    NamedField(String),
}

/// Why the derive is refused.
#[derive(Debug, Clone, Copy, PartialEq, Eq, Structural)]
pub enum DeriveError {
    /// The type is an enum or a union.
    NotAStruct,
    /// The struct has fields, but not exactly one.
    NotOneField,
}

/// The type that the attribute entries name: the last `rhs` entry, unless an
/// entry before the end is refused, in which case the first refused entry
/// decides the error.
pub open spec fn rhs_of_items(items: Seq<MetaItem>) -> Result<Seq<char>, RhsAttrError> {
    rhs_scan(items, None)
}

pub open spec fn rhs_scan(items: Seq<MetaItem>, found: Option<Seq<char>>) -> Result<Seq<char>, RhsAttrError>
    decreases items.len(),
{
    if items.len() == 0 {
        match found {
            Some(t) => Ok(t),
            None => Err(RhsAttrError::Missing),
        }
    } else {
        match items[0] {
            MetaItem::Rhs(t) => rhs_scan(items.drop_first(), Some(t@)),
            MetaItem::RhsMalformed => Err(RhsAttrError::Malformed),
            MetaItem::Other => Err(RhsAttrError::Expected),
        }
    }
}

/// Reads the entries of an `#[add_assign(...)]` attribute: the type given by
/// `rhs = "..."`.
pub fn rhs_from_attribute(items: &Vec<MetaItem>) -> (r: Result<String, RhsAttrError>)
    ensures
        match (r, rhs_of_items(items@)) {
            (Ok(t), Ok(u)) => t@ == u,
            (Err(e), Err(f)) => e == f,
            _ => false,
        },
{
    let mut rhs: Option<String> = None;
    let mut i: usize = 0;
    assert(items@.skip(0) =~= items@);
    while i < items.len()
        invariant
            i <= items@.len(),
            rhs_of_items(items@) == rhs_scan(
                items@.skip(i as int),
                match rhs {
                    Some(t) => Some(t@),
                    None => None,
                },
            ),
        decreases items@.len() - i,
    {
        assert(items@.skip(i as int).drop_first() =~= items@.skip(i + 1));
        assert(items@.skip(i as int)[0] == items@[i as int]);
        match &items[i] {
            MetaItem::Rhs(t) => {
                rhs = Some(t.clone());
            },
            MetaItem::RhsMalformed => {
                return Err(RhsAttrError::Malformed);
            },
            MetaItem::Other => {
                return Err(RhsAttrError::Expected);
            },
        }
        i = i + 1;
    }
    assert(items@.skip(i as int) =~= Seq::<MetaItem>::empty());
    match rhs {
        Some(t) => Ok(t),
        None => Err(RhsAttrError::Missing),
    }
}

/// The body that the derive generates for a type of this shape, or why it
/// is refused.
pub open spec fn spec_body(data: DataShape) -> Result<AddAssignBody, DeriveError> {
    match data {
        DataShape::Struct(FieldsShape::Unit) => Ok(AddAssignBody::Empty),
        DataShape::Struct(FieldsShape::Unnamed(n)) => if n == 1 {
            Ok(AddAssignBody::TupleField)
        } else {
            Err(DeriveError::NotOneField)
        },
        DataShape::Struct(FieldsShape::Named(names)) => if names@.len() == 1 {
            Ok(AddAssignBody::NamedField(names@[0]))
        } else {
            Err(DeriveError::NotOneField)
        },
        _ => Err(DeriveError::NotAStruct),
    }
}

/// Decides the body of `add_assign` for a type of this shape: nothing for a
/// unit struct, `self.0 += rhs` for a tuple struct of one field, `self.f +=
/// rhs;` for a struct of one field `f`; any other type is refused.
pub fn add_assign_body(data: &DataShape) -> (r: Result<AddAssignBody, DeriveError>)
    ensures
        match (r, spec_body(*data)) {
            (Ok(AddAssignBody::Empty), Ok(AddAssignBody::Empty)) => true,
            (Ok(AddAssignBody::TupleField), Ok(AddAssignBody::TupleField)) => true,
            (Ok(AddAssignBody::NamedField(a)), Ok(AddAssignBody::NamedField(b))) => a@ == b@,
            (Err(e), Err(f)) => e == f,
            _ => false,
        },
{
    match data {
        DataShape::Struct(fields) => match fields {
            FieldsShape::Unit => Ok(AddAssignBody::Empty),
            FieldsShape::Unnamed(n) => {
                if *n != 1 {
                    Err(DeriveError::NotOneField)
                } else {
                    Ok(AddAssignBody::TupleField)
                }
            },
            FieldsShape::Named(names) => {
                if names.len() != 1 {
                    Err(DeriveError::NotOneField)
                } else {
                    Ok(AddAssignBody::NamedField(names[0].clone()))
                }
            },
        },
        _ => Err(DeriveError::NotAStruct),
    }
}

/// The type added to `self`: the one that the `#[add_assign(rhs = "...")]`
/// attribute names, else `Self`.
pub fn rhs_type(attribute: Option<String>) -> (r: RhsType)
    ensures
        match (r, attribute) {
            (RhsType::SelfType, None) => true,
            (RhsType::Given(t), Some(u)) => t@ == u@,
            _ => false,
        },
{
    match attribute {
        Some(t) => RhsType::Given(t),
        None => RhsType::SelfType,
    }
}

// ---------------------------------------------------------------------------
// Reading the item

/// The item that the derive is applied to, as `syn` parses it.
#[verifier::external_type_specification]
#[verifier::external_body]
pub struct ExDeriveInput(syn::DeriveInput);

/// One entry of an attribute's list, as read.
#[derive(Debug)]
pub struct RawMeta {
    /// The entry's path is `rhs`.
    pub is_rhs: bool,
    /// The content of the string literal given as the entry's value, if one is.
    pub literal: Option<String>,
    /// That literal carries a suffix.
    pub suffixed: bool,
    /// `syn` parsed that literal's content as a type. It is asked only of an
    /// unsuffixed literal of an `rhs` entry.
    pub parsed: bool,
}

/// One attribute of the item, as read.
#[derive(Debug)]
pub struct AttrShape {
    /// The attribute's path is `add_assign`.
    pub is_add_assign: bool,
    /// The entries of its list, first to last, as far as they could be read.
    pub metas: Vec<RawMeta>,
    /// The whole list could be read.
    pub complete: bool,
}

/// The item that the derive is applied to, as plain values.
#[derive(Debug)]
pub struct DeriveItem {
    pub name: String,
    /// The generics of the impl, as source text.
    pub impl_generics: String,
    /// The generics of the type, as source text.
    pub type_generics: String,
    /// The `where` clause, as source text.
    pub where_clause: String,
    pub data: DataShape,
    /// The attributes of the item, first to last.
    pub attrs: Vec<AttrShape>,
}

/// The text is made of ASCII characters only.
pub open spec fn all_ascii(text: Seq<char>) -> bool {
    forall|i: int| 0 <= i < text.len() ==> (#[trigger] text[i] as u32) < 128
}

/// `part` appears in `whole` as a run of consecutive characters.
pub open spec fn occurs_in(part: Seq<char>, whole: Seq<char>) -> bool {
    exists|i: int| 0 <= i && i + part.len() <= whole.len() && #[trigger] whole.subrange(i, i + part.len()) == part
}

/// What holds of an item's name, however `syn` reads the source: it is not
/// empty, and in a source of ASCII characters it is a run of that source.
pub open spec fn name_of_source(name: Seq<char>, source: Seq<char>) -> bool {
    &&& name.len() > 0
    &&& all_ascii(source) ==> occurs_in(name, source)
}

/// Calls `syn::parse_str::<syn::DeriveInput>` on `source` and gives the
/// item with the text of its name (`syn::Ident`'s `to_string`); where it
/// fails, the text of `syn`'s error. Whether it succeeds depends on more than
/// the text (inside a procedural macro the compiler's lexer takes part), so
/// the contract claims what holds of every outcome: an empty text is no
/// item, and a name is an identifier taken from the text (its characters,
/// `r#` included, where the text is ASCII; a non-ASCII identifier may be
/// normalised, so nothing is claimed of it then).
#[verifier::external_body]
fn parse_derive_input(source: &str) -> (r: Result<(syn::DeriveInput, String), String>)
    ensures
        source@.len() == 0 ==> r is Err,
        r matches Ok((_, name)) ==> name_of_source(name@, source@),
{
    syn::parse_str::<syn::DeriveInput>(source)
        .map(|input| {
            let name = input.ident.to_string();
            (input, name)
        })
        .map_err(|e| e.to_string())
}

/// The generics of the item's impl and of its type, and its `where` clause
/// (from `syn::Generics::split_for_impl`), each as the text of its tokens.
/// Nothing is claimed of them.
#[verifier::external_body]
fn derive_generics(input: &syn::DeriveInput) -> (String, String, String) {
    let (impl_generics, type_generics, where_clause) = input.generics.split_for_impl();
    (
        impl_generics.to_token_stream().to_string(),
        type_generics.to_token_stream().to_string(),
        where_clause.to_token_stream().to_string(),
    )
}

/// The variant of the item's `syn::Data`, and of a struct the number or the
/// names of its fields. Nothing is claimed of it.
#[verifier::external_body]
fn derive_data_shape(input: &syn::DeriveInput) -> DataShape {
    match &input.data {
        syn::Data::Struct(data) => DataShape::Struct(match &data.fields {
            syn::Fields::Unit => FieldsShape::Unit,
            syn::Fields::Unnamed(f) => FieldsShape::Unnamed(f.unnamed.len()),
            syn::Fields::Named(f) => FieldsShape::Named(
                f.named.iter().map(|f| f.ident.to_token_stream().to_string()).collect(),
            ),
        }),
        syn::Data::Enum(_) => DataShape::Enum,
        syn::Data::Union(_) => DataShape::Union,
    }
}

/// An attribute as plain values: the text of its path where the path is one
/// identifier (`syn::Path::get_ident`), its entries, and whether its list was
/// read to the end.
pub type RawAttr = (Option<String>, Vec<RawEntry>, bool);

/// An entry of an attribute's list as plain values: the text of its path
/// where the path is one identifier, and the value and suffix of the
/// `syn::LitStr` that follows its `=`, where one does.
pub type RawEntry = (Option<String>, Option<(String, String)>);

/// Every attribute of the item, first to last, as plain values. The list of
/// each is walked with `syn::Attribute::parse_nested_meta`, and every entry
/// that the walk reaches is recorded; the walk goes on after each entry, so
/// it stops only where the list cannot be read further, and the flag says
/// whether it reached the end. Nothing is claimed of the result.
#[verifier::external_body]
fn attrs_of(input: &syn::DeriveInput) -> Vec<RawAttr> {
    let mut attrs = Vec::new();
    for attr in &input.attrs {
        let mut entries = Vec::new();
        let walked = attr.parse_nested_meta(|meta| {
            let literal = meta.value().and_then(|v| v.parse::<syn::LitStr>()).ok();
            let path = meta.path.get_ident().map(|i| i.to_string());
            entries.push((path, literal.map(|l| (l.value(), l.suffix().to_string()))));
            Ok(())
        });
        attrs.push((attr.path().get_ident().map(|i| i.to_string()), entries, walked.is_ok()));
    }
    attrs
}

/// The name of a built-in type other than a floating-point one, or `Self`.
pub open spec fn names_builtin_type(t: Seq<char>) -> bool {
    ||| t == "bool"@ || t == "char"@ || t == "str"@ || t == "Self"@
    ||| t == "i8"@ || t == "i16"@ || t == "i32"@ || t == "i64"@ || t == "i128"@ || t == "isize"@
    ||| t == "u8"@ || t == "u16"@ || t == "u32"@ || t == "u64"@ || t == "u128"@ || t == "usize"@
}

/// The text starts with an ASCII digit, so its first token is a number.
pub open spec fn starts_with_digit(t: Seq<char>) -> bool {
    t.len() > 0 && '0' <= t[0] <= '9'
}

/// Calls `syn::parse_str::<syn::Type>` on `text` and reports whether it
/// succeeded. The answer does not depend on the text alone (inside a
/// procedural macro the compiler's own lexer takes part), so the contract
/// claims what holds of every outcome: an empty text is no type, the name of
/// a built-in type or `Self` is one (a path of one identifier), and a text
/// that starts with a digit is none (a type never starts with a literal).
#[verifier::external_body]
fn is_type_text(text: &str) -> (r: bool)
    ensures
        r ==> text@.len() > 0,
        names_builtin_type(text@) ==> r,
        starts_with_digit(text@) ==> !r,
{
    syn::parse_str::<syn::Type>(text).is_ok()
}

/// What holds of every entry as read: `syn` was asked whether the literal
/// holds a type only of an unsuffixed, non-empty literal of an `rhs` entry;
/// it found the name of a built-in type or `Self` to be one, and a text that
/// starts with a digit not to be one.
pub open spec fn meta_read(m: RawMeta) -> bool {
    &&& m.parsed ==> (m.is_rhs && !m.suffixed && (m.literal matches Some(t) && t@.len() > 0))
    &&& !(m.is_rhs && m.literal is Some && !m.suffixed) ==> !m.parsed
    &&& (m.is_rhs && !m.suffixed && (m.literal matches Some(t) && names_builtin_type(t@)))
        ==> m.parsed
    &&& (m.literal matches Some(t) && starts_with_digit(t@)) ==> !m.parsed
}

pub open spec fn attr_read(a: AttrShape) -> bool {
    forall|j: int| 0 <= j < a.metas@.len() ==> meta_read(#[trigger] a.metas@[j])
}

pub open spec fn item_read(item: DeriveItem) -> bool {
    forall|k: int| 0 <= k < item.attrs@.len() ==> attr_read(#[trigger] item.attrs@[k])
}

/// The path is the one identifier `name`.
pub open spec fn path_is(path: Option<String>, name: Seq<char>) -> bool {
    path matches Some(t) && t@ == name
}

/// `m` is the entry `e` as read: its path is tested for `rhs`, and its
/// literal and whether that carries a suffix are kept.
pub open spec fn meta_from(e: RawEntry, m: RawMeta) -> bool {
    &&& m.is_rhs == path_is(e.0, "rhs"@)
    &&& match e.1 {
        Some((value, suffix)) => m.literal == Some(value) && m.suffixed == (suffix@.len() > 0),
        None => m.literal is None && !m.suffixed,
    }
}

/// `a` is the attribute `raw` as read: its path is tested for `add_assign`,
/// and its entries are read one for one, in order.
pub open spec fn attr_from(raw: RawAttr, a: AttrShape) -> bool {
    &&& a.is_add_assign == path_is(raw.0, "add_assign"@)
    &&& a.complete == raw.2
    &&& a.metas@.len() == raw.1@.len()
    &&& forall|j: int| 0 <= j < raw.1@.len() ==> meta_from(raw.1@[j], #[trigger] a.metas@[j])
}

/// Whether `path` is the one identifier whose text is `name`.
fn path_named(path: &Option<String>, name: &str) -> (r: bool)
    ensures
        r == path_is(*path, name@),
{
    match path {
        Some(t) => {
            let key = name.to_owned();
            t.eq(&key)
        },
        None => false,
    }
}

/// An entry as read: whether its path is `rhs`, its literal and whether that
/// carries a suffix, and, for an unsuffixed literal of an `rhs` entry,
/// whether `syn` parses it as a type.
fn raw_meta(e: RawEntry) -> (m: RawMeta)
    ensures
        meta_from(e, m),
        meta_read(m),
{
    let (path, literal) = e;
    let is_rhs = path_named(&path, "rhs");
    match literal {
        Some((value, suffix)) => {
            let suffixed = !suffix.as_str().is_empty();
            let parsed = if is_rhs && !suffixed {
                is_type_text(value.as_str())
            } else {
                false
            };
            RawMeta { is_rhs, literal: Some(value), suffixed, parsed }
        },
        None => RawMeta { is_rhs, literal: None, suffixed: false, parsed: false },
    }
}

/// An attribute as read: its path tested for `add_assign`, and each of its
/// entries, in order.
fn attr_shape(raw: RawAttr) -> (a: AttrShape)
    ensures
        attr_from(raw, a),
        attr_read(a),
{
    let ghost orig = raw.1@;
    let (path, mut entries, complete) = raw;
    let is_add_assign = path_named(&path, "add_assign");
    let mut metas: Vec<RawMeta> = Vec::new();
    let n = entries.len();
    let mut j: usize = 0;
    while j < n
        invariant
            n == orig.len(),
            j <= n,
            entries@ == orig.skip(j as int),
            metas@.len() == j,
            forall|i: int| 0 <= i < j ==> meta_from(orig[i], #[trigger] metas@[i]),
            forall|i: int| 0 <= i < j ==> meta_read(#[trigger] metas@[i]),
        decreases n - j,
    {
        let e = entries.remove(0);
        assert(e == orig[j as int]);
        assert(orig.skip(j as int).remove(0) =~= orig.skip(j + 1));
        metas.push(raw_meta(e));
        j = j + 1;
    }
    AttrShape { is_add_assign, metas, complete }
}

/// The item from the plain values that `syn` gave for it: the head and the
/// shape are kept, and the attributes are read one for one, in order.
pub fn derive_item_of(
    name: String,
    impl_generics: String,
    type_generics: String,
    where_clause: String,
    data: DataShape,
    attrs: Vec<RawAttr>,
) -> (item: DeriveItem)
    ensures
        item.name@ == name@,
        item.impl_generics@ == impl_generics@,
        item.type_generics@ == type_generics@,
        item.where_clause@ == where_clause@,
        item.data == data,
        item.attrs@.len() == attrs@.len(),
        forall|k: int| 0 <= k < attrs@.len() ==> attr_from(attrs@[k], #[trigger] item.attrs@[k]),
        item_read(item),
{
    let ghost orig = attrs@;
    let mut attrs = attrs;
    let mut shapes: Vec<AttrShape> = Vec::new();
    let n = attrs.len();
    let mut k: usize = 0;
    while k < n
        invariant
            n == orig.len(),
            k <= n,
            attrs@ == orig.skip(k as int),
            shapes@.len() == k,
            forall|i: int| 0 <= i < k ==> attr_from(orig[i], #[trigger] shapes@[i]),
            forall|i: int| 0 <= i < k ==> attr_read(#[trigger] shapes@[i]),
        decreases n - k,
    {
        let raw = attrs.remove(0);
        assert(raw == orig[k as int]);
        assert(orig.skip(k as int).remove(0) =~= orig.skip(k + 1));
        shapes.push(attr_shape(raw));
        k = k + 1;
    }
    DeriveItem { name, impl_generics, type_generics, where_clause, data, attrs: shapes }
}

/// Reads the item in `source`: where `syn` does not parse it as an item that
/// a derive applies to, the text of `syn`'s error. The item is
/// `derive_item_of` applied to what `syn` gave for it. An empty source is no
/// item, and the item's name is taken from the source (`name_of_source`).
pub fn read_derive_item(source: &str) -> (r: Result<DeriveItem, String>)
    ensures
        source@.len() == 0 ==> r is Err,
        r matches Ok(item) ==> item_read(item) && name_of_source(item.name@, source@),
{
    let (input, name) = match parse_derive_input(source) {
        Ok(parsed) => parsed,
        Err(e) => {
            return Err(e);
        },
    };
    let (impl_generics, type_generics, where_clause) = derive_generics(&input);
    let data = derive_data_shape(&input);
    let attrs = attrs_of(&input);
    Ok(derive_item_of(name, impl_generics, type_generics, where_clause, data, attrs))
}

// ---------------------------------------------------------------------------
// Deciding the impl

/// Why the derive produces no impl.
#[derive(Debug, Clone, Copy, PartialEq, Eq, Structural)]
pub enum AddAssignError {
    /// The first `add_assign` attribute is refused.
    Attribute(RhsAttrError),
    /// The item's shape is refused.
    Shape(DeriveError),
}

/// How the derive reads one entry of an attribute.
pub open spec fn meta_item_of(m: RawMeta) -> MetaItem {
    if !m.is_rhs {
        MetaItem::Other
    } else if m.parsed && !m.suffixed && m.literal is Some {
        MetaItem::Rhs(m.literal->0)
    } else {
        MetaItem::RhsMalformed
    }
}

/// Reads one entry of an attribute: only an `rhs` entry whose unsuffixed
/// string literal holds a type is accepted.
pub fn classify_meta(m: &RawMeta) -> (r: MetaItem)
    ensures
        r == meta_item_of(*m),
{
    if !m.is_rhs {
        return MetaItem::Other;
    }
    match &m.literal {
        Some(text) => {
            if m.parsed && !m.suffixed {
                MetaItem::Rhs(text.clone())
            } else {
                MetaItem::RhsMalformed
            }
        },
        None => MetaItem::RhsMalformed,
    }
}

/// The type that an `add_assign` attribute names: its entries are read
/// first to last; a list that could not be read to its end is refused
/// unless an entry before the point where reading stopped is refused first.
pub open spec fn attr_rhs(a: AttrShape) -> Result<Seq<char>, RhsAttrError> {
    let scan = rhs_of_items(a.metas@.map_values(|m: RawMeta| meta_item_of(m)));
    if !a.complete && !(scan == Err::<Seq<char>, RhsAttrError>(RhsAttrError::Expected) || scan
        == Err::<Seq<char>, RhsAttrError>(RhsAttrError::Malformed)) {
        Err(RhsAttrError::Unreadable)
    } else {
        scan
    }
}

/// The index of the first attribute whose path is `add_assign`.
pub open spec fn first_add_assign(attrs: Seq<AttrShape>) -> Option<int>
    decreases attrs.len(),
{
    if attrs.len() == 0 {
        None
    } else if attrs[0].is_add_assign {
        Some(0)
    } else {
        match first_add_assign(attrs.drop_first()) {
            Some(k) => Some(k + 1),
            None => None,
        }
    }
}

/// The type added to `self`: `None` for `Self`, where no attribute is an
/// `add_assign` one; else what the first such attribute names.
pub open spec fn plan_rhs(attrs: Seq<AttrShape>) -> Result<Option<Seq<char>>, RhsAttrError> {
    match first_add_assign(attrs) {
        None => Ok(None),
        Some(k) => match attr_rhs(attrs[k]) {
            Ok(t) => Ok(Some(t)),
            Err(e) => Err(e),
        },
    }
}

pub open spec fn rhs_is(rt: RhsType, rhs: Option<Seq<char>>) -> bool {
    match (rt, rhs) {
        (RhsType::SelfType, None) => true,
        (RhsType::Given(t), Some(u)) => t@ == u,
        _ => false,
    }
}

pub open spec fn body_is(b: AddAssignBody, sb: AddAssignBody) -> bool {
    match (b, sb) {
        (AddAssignBody::Empty, AddAssignBody::Empty) => true,
        (AddAssignBody::TupleField, AddAssignBody::TupleField) => true,
        (AddAssignBody::NamedField(x), AddAssignBody::NamedField(y)) => x@ == y@,
        _ => false,
    }
}

/// `r` is what the derive decides for `item`: the attribute is read first,
/// then the item's shape.
pub open spec fn decided(item: DeriveItem, r: Result<(RhsType, AddAssignBody), AddAssignError>) -> bool {
    match plan_rhs(item.attrs@) {
        Err(e) => r == Err::<(RhsType, AddAssignBody), AddAssignError>(AddAssignError::Attribute(e)),
        Ok(rhs) => match spec_body(item.data) {
            Err(e) => r == Err::<(RhsType, AddAssignBody), AddAssignError>(AddAssignError::Shape(e)),
            Ok(sb) => (r matches Ok((rt, b)) && rhs_is(rt, rhs) && body_is(b, sb)),
        },
    }
}

proof fn lemma_first_add_assign(attrs: Seq<AttrShape>, i: int)
    requires
        0 <= i <= attrs.len(),
        forall|k: int| 0 <= k < i ==> !(#[trigger] attrs[k]).is_add_assign,
    ensures
        i < attrs.len() && attrs[i].is_add_assign ==> first_add_assign(attrs) == Some(i),
        i == attrs.len() ==> first_add_assign(attrs) is None,
    decreases i,
{
    if i > 0 {
        let rest = attrs.drop_first();
        assert forall|k: int| 0 <= k < i - 1 implies !(#[trigger] rest[k]).is_add_assign by {
            assert(rest[k] == attrs[k + 1]);
        }
        lemma_first_add_assign(rest, i - 1);
        assert(!attrs[0].is_add_assign);
        if i < attrs.len() {
            assert(rest[i - 1] == attrs[i]);
        }
    }
}

/// The type that the `add_assign` attribute `a` names.
fn rhs_of_attr(a: &AttrShape) -> (r: Result<String, RhsAttrError>)
    ensures
        match (r, attr_rhs(*a)) {
            (Ok(t), Ok(u)) => t@ == u,
            (Err(e), Err(f)) => e == f,
            _ => false,
        },
{
    let mut items: Vec<MetaItem> = Vec::new();
    let mut j: usize = 0;
    while j < a.metas.len()
        invariant
            j <= a.metas@.len(),
            items@ == a.metas@.take(j as int).map_values(|m: RawMeta| meta_item_of(m)),
        decreases a.metas@.len() - j,
    {
        let m = classify_meta(&a.metas[j]);
        items.push(m);
        assert(a.metas@.take(j + 1).map_values(|m: RawMeta| meta_item_of(m)) =~= a.metas@.take(
            j as int,
        ).map_values(|m: RawMeta| meta_item_of(m)).push(meta_item_of(a.metas@[j as int])));
        j = j + 1;
    }
    assert(a.metas@.take(j as int) =~= a.metas@);
    let scan = rhs_from_attribute(&items);
    match scan {
        Ok(t) => {
            if a.complete {
                Ok(t)
            } else {
                Err(RhsAttrError::Unreadable)
            }
        },
        Err(e) => {
            if a.complete || e == RhsAttrError::Expected || e == RhsAttrError::Malformed {
                Err(e)
            } else {
                Err(RhsAttrError::Unreadable)
            }
        },
    }
}

/// Decides the impl for `item`: the type added is `Self`, or the type that
/// the first `add_assign` attribute names; the body goes by the item's
/// shape. A refused attribute is reported before a refused shape.
pub fn decide_add_assign(item: &DeriveItem) -> (r: Result<(RhsType, AddAssignBody), AddAssignError>)
    ensures
        decided(*item, r),
{
    let n = item.attrs.len();
    let mut k: usize = 0;
    let mut found = false;
    while !found && k < n
        invariant
            k <= n,
            n == item.attrs@.len(),
            found ==> k < n && item.attrs@[k as int].is_add_assign,
            forall|j: int| 0 <= j < k ==> !(#[trigger] item.attrs@[j]).is_add_assign,
        decreases n - k + if found { 0int } else { 1int },
    {
        if item.attrs[k].is_add_assign {
            found = true;
        } else {
            k = k + 1;
        }
    }
    proof {
        lemma_first_add_assign(item.attrs@, k as int);
    }
    let rhs = if found {
        match rhs_of_attr(&item.attrs[k]) {
            Ok(t) => RhsType::Given(t),
            Err(e) => {
                return Err(AddAssignError::Attribute(e));
            },
        }
    } else {
        RhsType::SelfType
    };
    match add_assign_body(&item.data) {
        Ok(b) => Ok((rhs, b)),
        Err(e) => Err(AddAssignError::Shape(e)),
    }
}

/// Reads the item in `source` and decides its impl: where `syn` does not
/// read the text as an item, the text of its error; otherwise the item as
/// read and what `decide_add_assign` decides for it.
pub fn add_assign_plan(source: &str) -> (r: Result<
    (DeriveItem, Result<(RhsType, AddAssignBody), AddAssignError>),
    String,
>)
    ensures
        source@.len() == 0 ==> r is Err,
        r matches Ok((item, d)) ==> item_read(item) && name_of_source(item.name@, source@)
            && decided(item, d),
{
    match read_derive_item(source) {
        Ok(item) => {
            let d = decide_add_assign(&item);
            Ok((item, d))
        },
        Err(e) => Err(e),
    }
}

} // verus!
