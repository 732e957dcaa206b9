//! The demo page: what goes out as its HTML, rendered or not.

use vstd::prelude::*;

verus! {

/// `askama::Error`, the templating failure, carried through unread.
#[verifier::external_type_specification]
#[verifier::external_body]
pub struct ExTemplateError(askama::Error);

/// Why a page could not be produced.
#[derive(Debug)]
pub enum PageError {
    TemplatingError(askama::Error),
}

impl From<askama::Error> for PageError {
    fn from(value: askama::Error) -> (error: Self) {
        PageError::TemplatingError(value)
    }
}

impl vstd::std_specs::convert::FromSpecImpl<askama::Error> for PageError {
    open spec fn obeys_from_spec() -> bool {
        true
    }

    open spec fn from_spec(value: askama::Error) -> Self {
        PageError::TemplatingError(value)
    }
}

impl PageError {
    /// The page shown in place of one that failed. It says nothing of the
    /// failure.
    pub fn to_html(&self) -> (html: String)
        ensures
            html@ == "Error!"@,
    {
        "Error!".to_owned()
    }
}

/// A page as a handler returns it: its HTML, or the failure to produce it.
#[derive(Debug)]
pub struct PageResult(pub Result<String, PageError>);

impl From<String> for PageResult {
    fn from(value: String) -> (page: Self) {
        PageResult(Ok(value))
    }
}

impl vstd::std_specs::convert::FromSpecImpl<String> for PageResult {
    open spec fn obeys_from_spec() -> bool {
        true
    }

    open spec fn from_spec(value: String) -> Self {
        PageResult(Ok(value))
    }
}

impl<E: Into<PageError>> From<Result<String, E>> for PageResult {
    fn from(value: Result<String, E>) -> (page: Self) {
        match value {
            Ok(html) => PageResult(Ok(html)),
            Err(failure) => PageResult(Err(failure.into())),
        }
    }
}

impl<E: Into<PageError>> vstd::std_specs::convert::FromSpecImpl<Result<String, E>> for PageResult {
    open spec fn obeys_from_spec() -> bool {
        <E as vstd::std_specs::convert::IntoSpec<PageError>>::obeys_into_spec()
    }

    open spec fn from_spec(value: Result<String, E>) -> Self {
        match value {
            Ok(html) => PageResult(Ok(html)),
            Err(failure) => PageResult(
                Err(<E as vstd::std_specs::convert::IntoSpec<PageError>>::into_spec(failure)),
            ),
        }
    }
}

impl PageResult {
    /// The HTML that goes out: the rendered page, or the error page.
    pub fn into_html(self) -> (html: String)
        ensures
            match self.0 {
                Ok(page) => html == page,
                Err(_) => html@ == "Error!"@,
            },
    {
        match self.0 {
            Ok(page) => page,
            Err(error) => error.to_html(),
        }
    }
}

} // verus!
