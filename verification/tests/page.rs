use flashcow::page::{PageError, PageResult};

#[test]
fn error_page_says_nothing_of_the_failure() {
    assert_eq!(PageError::TemplatingError(askama::Error::Fmt).to_html(), "Error!");
    assert_eq!(PageError::TemplatingError(askama::Error::ValueMissing).to_html(), "Error!");
}

#[test]
fn templating_failure_becomes_a_page_error() {
    assert!(matches!(
        PageError::from(askama::Error::ValueType),
        PageError::TemplatingError(askama::Error::ValueType)
    ));
}

#[test]
fn rendered_page_goes_out_as_it_is() {
    let page = PageResult::from("<p>You are visitor 3</p>".to_string());
    assert!(matches!(&page, PageResult(Ok(html)) if html == "<p>You are visitor 3</p>"));
    assert_eq!(page.into_html(), "<p>You are visitor 3</p>");
    let rendered: Result<String, askama::Error> = Ok("<p>0</p>".to_string());
    assert_eq!(PageResult::from(rendered).into_html(), "<p>0</p>");
}

#[test]
fn failed_page_goes_out_as_the_error_page() {
    let failed: Result<String, askama::Error> = Err(askama::Error::Fmt);
    let page = PageResult::from(failed);
    assert!(matches!(page, PageResult(Err(PageError::TemplatingError(askama::Error::Fmt)))));
    assert_eq!(page.into_html(), "Error!");
}
