//! Field-level validation failures, collected per field in the order in which they arise.

use vstd::prelude::*;
use validator::ValidationErrors;

verus! {

pub type FieldName = &'static str;

pub type FieldErrorCode = &'static str;

/// Codes per field name.
pub type FieldCodes = Map<Seq<char>, Seq<Seq<char>>>;

/// The collection of `validator` in which failures are gathered.
#[verifier::external_type_specification]
#[verifier::external_body]
pub struct ExValidationErrors(ValidationErrors);

/// The codes that a `validator::ValidationErrors` holds for each field, in the order in
/// which they were added.
pub uninterp spec fn field_codes(errors: ValidationErrors) -> FieldCodes;

/// Whether every entry of a `validator::ValidationErrors` is a list of failures of one
/// field, none a nested collection.
pub uninterp spec fn only_fields(errors: ValidationErrors) -> bool;

/// Text on which `validator::validate_email` answers yes.
pub uninterp spec fn is_email(text: Seq<char>) -> bool;

/// No failure at all.
pub open spec fn no_codes() -> FieldCodes {
    Map::empty()
}

/// `codes` after one more failure `code` of `field`.
pub open spec fn with_code(codes: FieldCodes, field: Seq<char>, code: Seq<char>) -> FieldCodes {
    codes.insert(
        field,
        if codes.contains_key(field) {
            codes[field].push(code)
        } else {
            seq![code]
        },
    )
}

/// The characters of each name and code in a list of failures.
pub open spec fn pairs_view(errs: Seq<(FieldName, FieldErrorCode)>) -> Seq<(Seq<char>, Seq<char>)> {
    errs.map_values(|e: (FieldName, FieldErrorCode)| (e.0@, e.1@))
}

/// The codes per field after the failures `errs` were recorded one after the other.
pub open spec fn collect_codes(errs: Seq<(Seq<char>, Seq<char>)>) -> FieldCodes
    decreases errs.len(),
{
    if errs.len() == 0 {
        no_codes()
    } else {
        with_code(collect_codes(errs.drop_last()), errs.last().0, errs.last().1)
    }
}

/// Whether `list` holds each field of `codes` exactly once, with its codes.
pub open spec fn lists_fields(list: Seq<(Seq<char>, Seq<Seq<char>>)>, codes: FieldCodes) -> bool {
    &&& forall|i: int| 0 <= i < list.len() ==> codes.contains_key(#[trigger] list[i].0)
            && codes[list[i].0] == list[i].1
    &&& forall|i: int, j: int| 0 <= i < j < list.len() ==> list[i].0 != list[j].0
    &&& forall|f: Seq<char>| #[trigger] codes.contains_key(f) ==>
            exists|i: int| 0 <= i < list.len() && list[i].0 == f
}

/// `validator::ValidationErrors::new`.
///
/// Trusted: the new collection holds no field.
#[verifier::external_body]
fn errors_empty() -> (errors: ValidationErrors)
    ensures
        field_codes(errors) == no_codes(),
        only_fields(errors),
{
    ValidationErrors::new()
}

/// `validator::ValidationErrors::add` with a `validator::ValidationError::new(code)`.
///
/// Trusted: the code is appended to those of `field`, and nothing else changes. The
/// outside function panics where `field` names a nested collection, which `only_fields`
/// excludes.
#[verifier::external_body]
fn errors_add(errors: &mut ValidationErrors, field: FieldName, code: FieldErrorCode)
    requires
        only_fields(*old(errors)),
    ensures
        only_fields(*final(errors)),
        field_codes(*final(errors)) == with_code(field_codes(*old(errors)), field@, code@),
{
    errors.add(field, validator::ValidationError::new(code));
}

/// `validator::ValidationErrors::is_empty`.
///
/// Trusted: the answer is yes exactly where no field has an entry.
#[verifier::external_body]
fn errors_is_empty(errors: &ValidationErrors) -> (b: bool)
    requires
        only_fields(*errors),
    ensures
        b == (field_codes(*errors) =~= no_codes()),
{
    errors.is_empty()
}

/// `validator::ValidationErrors::into_errors`, each entry handed out as the field's name and
/// the codes of its failures.
///
/// Trusted: every field comes out once, with its codes in order; the order of the fields is
/// that of a hash map and left open.
#[verifier::external_body]
fn errors_into_list(errors: ValidationErrors) -> (list: Vec<(String, Vec<String>)>)
    requires
        only_fields(errors),
    ensures
        lists_fields(list.deep_view(), field_codes(errors)),
{
    errors.into_errors().into_iter().map(|(field, kind)| (field.to_string(), match kind {
        validator::ValidationErrorsKind::Field(list) => list.into_iter().map(|e| e.code.into_owned()).collect(),
        _ => Vec::new(),
    })).collect()
}

/// `validator::validate_email`.
///
/// Trusted: the answer is the one named by [`is_email`].
#[verifier::external_body]
pub(crate) fn email_is_valid(text: &str) -> (b: bool)
    ensures
        b == is_email(text@),
{
    validator::validate_email(text)
}

/// `validator::validate_length` with a lower bound only.
///
/// Trusted: the outside function counts characters, and accepts at least `min` of them.
#[verifier::external_body]
pub(crate) fn has_min_length(text: &str, min: u64) -> (b: bool)
    ensures
        b == (text@.len() >= min),
{
    validator::validate_length(text, Some(min), None, None)
}

/// The validation failures of one request, by field.
#[derive(Debug)]
pub struct Errors {
    errors: ValidationErrors,
}

impl View for Errors {
    type V = FieldCodes;

    closed spec fn view(&self) -> FieldCodes {
        field_codes(self.errors)
    }
}

impl Errors {
    /// Whether the collection holds failures of fields only, as every collection built by
    /// this module does.
    pub closed spec fn wf(&self) -> bool {
        only_fields(self.errors)
    }

    /// The failures `errs`, recorded in order.
    pub fn new(errs: &[(FieldName, FieldErrorCode)]) -> (r: Self)
        ensures
            r.wf(),
            r@ == collect_codes(pairs_view(errs@)),
    {
        let mut errors = errors_empty();
        let mut i: usize = 0;
        while i < errs.len()
            invariant
                i <= errs.len(),
                only_fields(errors),
                field_codes(errors) == collect_codes(pairs_view(errs@.take(i as int))),
            decreases errs.len() - i,
        {
            let (field, code) = errs[i];
            errors_add(&mut errors, field, code);
            proof {
                let next = pairs_view(errs@.take(i + 1));
                assert(next.drop_last() =~= pairs_view(errs@.take(i as int)));
                assert(next.last() == (field@, code@));
            }
            i += 1;
        }
        assert(errs@.take(i as int) =~= errs@);
        Errors { errors }
    }

    /// The one failure `code` of `field`.
    pub fn single(field: FieldName, code: FieldErrorCode) -> (r: Self)
        ensures
            r.wf(),
            r@ == one_code(field@, code@),
    {
        let mut errors = errors_empty();
        errors_add(&mut errors, field, code);
        Errors { errors }
    }

    /// Records one more failure `code` of `field`.
    pub fn add(&mut self, field: FieldName, code: FieldErrorCode)
        requires
            old(self).wf(),
        ensures
            final(self).wf(),
            final(self)@ == with_code(old(self)@, field@, code@),
    {
        errors_add(&mut self.errors, field, code);
    }

    /// Whether no failure was recorded.
    pub fn is_empty(&self) -> (b: bool)
        requires
            self.wf(),
        ensures
            b == (self@ =~= no_codes()),
    {
        errors_is_empty(&self.errors)
    }

    /// Every field with its codes; the fields come in no particular order.
    pub fn into_fields(self) -> (list: Vec<(String, Vec<String>)>)
        requires
            self.wf(),
        ensures
            lists_fields(list.deep_view(), self@),
    {
        errors_into_list(self.errors)
    }
}

/// Why a request was not served.
#[derive(Debug)]
pub enum Failure {
    /// What was asked for does not exist.
    NotFound,
    /// Fields of the request break a rule.
    ValidationFailed(Errors),
    /// The requester may not do this.
    Unauthorized,
    /// The store could not take the change.
    StorageFailure,
}

/// The collection that holds the one failure `code` of `field`.
pub open spec fn one_code(field: Seq<char>, code: Seq<char>) -> FieldCodes {
    with_code(no_codes(), field, code)
}

/// `codes`, with `field` recorded as blank where `value` is missing.
pub open spec fn blank_if_missing<T>(codes: FieldCodes, field: Seq<char>, value: Option<T>) -> FieldCodes {
    if value is None {
        with_code(codes, field, "can't be blank"@)
    } else {
        codes
    }
}

/// Codes that are empty after a field was checked for being blank were empty before, and
/// the field was given.
pub proof fn lemma_codes_empty<T>(after: FieldCodes, field: Seq<char>, value: Option<T>)
    ensures
        forall|before: FieldCodes|
            #![trigger blank_if_missing(before, field, value)]
            blank_if_missing(before, field, value) == after && after =~= no_codes() ==> value
                is Some && before =~= no_codes(),
{
    assert forall|before: FieldCodes|
        #![trigger blank_if_missing(before, field, value)]
        blank_if_missing(before, field, value) == after && after =~= no_codes() implies value
        is Some && before =~= no_codes() by {
        if value is None {
            assert(after.contains_key(field));
        }
    }
}

/// The failure, if any, of a text that must hold at least `min` characters where it is
/// given.
pub open spec fn too_short(field: Seq<char>, value: Option<Seq<char>>, min: int) -> Seq<
    (Seq<char>, Seq<char>),
> {
    if value is Some && value->0.len() < min {
        seq![(field, "length"@)]
    } else {
        seq![]
    }
}

/// The failure, if any, of a text that must be an address where it is given.
pub open spec fn not_an_email(field: Seq<char>, value: Option<Seq<char>>) -> Seq<
    (Seq<char>, Seq<char>),
> {
    if value is Some && !is_email(value->0) {
        seq![(field, "email"@)]
    } else {
        seq![]
    }
}

/// Appends to `found` the failure of a text that is given and shorter than `min`.
pub fn check_min_length(
    found: &mut Vec<(FieldName, FieldErrorCode)>,
    field: FieldName,
    value: &Option<String>,
    min: u64,
)
    ensures
        pairs_view(final(found)@) == pairs_view(old(found)@) + too_short(
            field@,
            value.deep_view(),
            min as int,
        ),
{
    let ghost before = pairs_view(found@);
    match value {
        Some(text) => {
            if !has_min_length(text.as_str(), min) {
                found.push((field, "length"));
                assert(pairs_view(found@) =~= before + seq![(field@, "length"@)]);
                return ;
            }
        },
        None => {},
    }
    assert(pairs_view(found@) =~= before + Seq::<(Seq<char>, Seq<char>)>::empty());
}

/// Appends to `found` the failure of a text that is given and no address.
pub fn check_email(
    found: &mut Vec<(FieldName, FieldErrorCode)>,
    field: FieldName,
    value: &Option<String>,
)
    ensures
        pairs_view(final(found)@) == pairs_view(old(found)@) + not_an_email(
            field@,
            value.deep_view(),
        ),
{
    let ghost before = pairs_view(found@);
    match value {
        Some(text) => {
            if !email_is_valid(text.as_str()) {
                found.push((field, "email"));
                assert(pairs_view(found@) =~= before + seq![(field@, "email"@)]);
                return ;
            }
        },
        None => {},
    }
    assert(pairs_view(found@) =~= before + Seq::<(Seq<char>, Seq<char>)>::empty());
}

/// Turns the failures found into the outcome of a validation.
pub fn outcome_of(found: Vec<(FieldName, FieldErrorCode)>) -> (r: Result<(), Errors>)
    ensures
        r is Ok <==> found.len() == 0,
        r matches Err(e) ==> e.wf() && e@ == collect_codes(pairs_view(found@)),
{
    if found.len() == 0 {
        Ok(())
    } else {
        Err(Errors::new(found.as_slice()))
    }
}

/// A type whose values are checked against rules, field by field.
pub trait Validate {
    /// The failures that the rules find in `self`: field and code, in the order of the checks.
    spec fn violations(&self) -> Seq<(Seq<char>, Seq<char>)>;

    /// Checks every rule.
    fn validate(&self) -> (r: Result<(), Errors>)
        ensures
            r is Ok <==> self.violations().len() == 0,
            r matches Err(e) ==> e.wf() && e@ == collect_codes(self.violations()),
    ;
}

/// Gathers the failures of a request while its fields are taken out.
pub struct FieldValidator {
    errors: ValidationErrors,
}

impl View for FieldValidator {
    type V = FieldCodes;

    closed spec fn view(&self) -> FieldCodes {
        field_codes(self.errors)
    }
}

impl Default for FieldValidator {
    fn default() -> (r: Self)
        ensures
            r.wf(),
            r@ == no_codes(),
    {
        Self { errors: errors_empty() }
    }
}

impl FieldValidator {
    /// Whether the collection holds failures of fields only, as every collection built by
    /// this module does.
    pub closed spec fn wf(&self) -> bool {
        only_fields(self.errors)
    }

    /// Starts from the failures that the rules of `model` find.
    pub fn validate<T: Validate>(model: &T) -> (r: Self)
        ensures
            r.wf(),
            r@ == collect_codes(model.violations()),
    {
        match model.validate() {
            Ok(()) => Self { errors: errors_empty() },
            Err(e) => Self { errors: e.errors },
        }
    }

    /// Ends the gathering: `Ok` where nothing failed, else all failures.
    pub fn check(self) -> (r: Result<(), Errors>)
        requires
            self.wf(),
        ensures
            r is Ok <==> self@ =~= no_codes(),
            r matches Err(e) ==> e.wf() && e@ == self@,
    {
        if errors_is_empty(&self.errors) {
            Ok(())
        } else {
            Err(Errors { errors: self.errors })
        }
    }

    /// Takes a field out of the request. A missing field is recorded as blank and replaced
    /// by the default value of its type.
    pub fn extract<T: Default>(&mut self, field_name: FieldName, field: Option<T>) -> (r: T)
        requires
            old(self).wf(),
        ensures
            final(self).wf(),
            field matches Some(v) ==> r == v && final(self)@ == old(self)@,
            field is None ==> call_ensures(T::default, (), r) && final(self)@ == with_code(
                old(self)@,
                field_name@,
                "can't be blank"@,
            ),
    {
        match field {
            Some(v) => v,
            None => {
                errors_add(&mut self.errors, field_name, "can't be blank");
                T::default()
            },
        }
    }
}

} // verus!
