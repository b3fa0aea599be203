use telegram_relay::default_parse_mode;
use telegram_relay::Dispatch;
use telegram_relay::MessageData;

#[test]
fn default_parse_mode_is_markdown_v2() {
    assert_eq!(default_parse_mode(), "MarkdownV2");
}

#[test]
fn omitted_parse_mode_reads_as_default() {
    let omitted = MessageData::new("hi", None, vec![1, 2]);
    let given = MessageData::new("hi", Some("MarkdownV2"), vec![1, 2]);
    assert_eq!(omitted.parse_mode, "MarkdownV2");
    assert_eq!(omitted, given);
}

#[test]
fn given_parse_mode_is_kept() {
    let data = MessageData::new("<b>hi</b>", Some("HTML"), vec![1]);
    assert_eq!(data.message, "<b>hi</b>");
    assert_eq!(data.parse_mode, "HTML");
    assert_eq!(data.user_list, vec![1]);
}

#[test]
fn empty_parse_mode_is_not_replaced() {
    let data = MessageData::new("hi", Some(""), vec![]);
    assert_eq!(data.parse_mode, "");
}

#[test]
fn omitted_parse_mode_reaches_the_provider_as_default() {
    let dispatch = Dispatch::new(MessageData::new("hi", None, vec![111]));
    let call = dispatch.next_call("t").unwrap();
    assert_eq!(call.body.parse_mode, "MarkdownV2");
}
