use treq_app::i18n::Locale;
use treq_app::panes::PillTone;
use treq_app::response_pane::{pane_content, status_pill, status_text, tab_strip, PaneContent, ResponseTab};

#[test]
fn tabs_in_order_with_the_header_count() {
    let tabs = tab_strip(7);
    assert_eq!(tabs.len(), 5);
    assert_eq!(tabs[0], (ResponseTab::Body, "response.tab.preview", None));
    assert_eq!(tabs[1], (ResponseTab::Headers, "response.tab.headers", Some(7)));
    assert_eq!(tabs[4].0, ResponseTab::History);
}

#[test]
fn pane_shows_what_the_tab_and_response_allow() {
    assert_eq!(pane_content(ResponseTab::History, 0, true, false, 0), PaneContent::NoHistory);
    assert_eq!(pane_content(ResponseTab::History, 3, false, false, 0), PaneContent::History);
    assert_eq!(pane_content(ResponseTab::Body, 0, false, true, 0), PaneContent::Sending);
    assert_eq!(pane_content(ResponseTab::Body, 0, false, false, 0), PaneContent::NoResponse);
    assert_eq!(pane_content(ResponseTab::Body, 0, true, true, 0), PaneContent::Body);
    assert_eq!(pane_content(ResponseTab::Headers, 0, false, true, 0), PaneContent::NoResponse);
    assert_eq!(pane_content(ResponseTab::Cookies, 0, true, false, 0), PaneContent::NoCookies);
    assert_eq!(pane_content(ResponseTab::Cookies, 0, true, false, 2), PaneContent::Cookies);
    assert_eq!(pane_content(ResponseTab::Timeline, 0, true, false, 0), PaneContent::Timeline);
}

#[test]
fn timeline_status_is_a_code_or_a_dash() {
    assert_eq!(status_text(Some(204)), "204");
    assert_eq!(status_text(None), "—");
}

#[test]
fn status_pill_shows_code_and_reason_or_error() {
    assert_eq!(status_pill(Locale::En, Some(404), " Not Found "), (PillTone::Warning, "404 Not Found".to_string()));
    assert_eq!(status_pill(Locale::En, Some(200), "OK"), (PillTone::Success, "200 OK".to_string()));
    assert_eq!(status_pill(Locale::En, None, ""), (PillTone::Danger, "Error".to_string()));
    assert_eq!(status_pill(Locale::Zh, None, "x"), (PillTone::Danger, "错误".to_string()));
}
