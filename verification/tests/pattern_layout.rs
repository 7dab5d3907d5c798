use pattern_layout::fields::{EventValue, FieldsVisitor};
use pattern_layout::parse::ParseErrorKind;
use pattern_layout::pattern::{Pattern, PatternItem, PlaceholderType, PlaceholderValue};
use pattern_layout::render::{nearest_span, EventData, SpanData};

fn event(level: &str, target: &str) -> EventData {
    EventData {
        level: level.to_string(),
        target: target.to_string(),
        file: None,
        line: None,
        fields: FieldsVisitor::new(),
        span: None,
    }
}

#[test]
fn parse_is_deterministic() {
    let t = "a $level(width=5, alignment='>') b $text(value='x', flag) $bogus c";
    let a = Pattern::try_parse(t).unwrap();
    let b = Pattern::try_parse(t).unwrap();
    assert_eq!(a.items(), b.items());
}

#[test]
fn literal_template_renders_unchanged() {
    let p = Pattern::try_parse("Hello, world!").unwrap();
    let e1 = event("INFO", "app");
    let mut e2 = event("ERROR", "other");
    e2.fields.record_i64("k", 7);
    e2.line = Some(12);
    assert_eq!(p.render_event(&e1), "Hello, world!");
    assert_eq!(p.render_event(&e2), "Hello, world!");
}

#[test]
fn message_absent_renders_empty() {
    let p = Pattern::try_parse("$message").unwrap();
    let e = event("INFO", "app");
    assert_eq!(p.render_event(&e), "");
}

#[test]
fn message_present_renders_text() {
    let p = Pattern::try_parse("$message").unwrap();
    let mut e = event("INFO", "app");
    e.fields.record_str("message", "Hello, world!");
    assert_eq!(p.render_event(&e), "Hello, world!");
}

#[test]
fn repeated_key_values_in_order() {
    let mut f = FieldsVisitor::new();
    f.record_i64("x", 1);
    f.record_i64("x", 2);
    let out = f.format_values();
    assert!(out.contains("x=[1,2]"), "got {}", out);
}

#[test]
fn level_width_right_align() {
    let p = Pattern::try_parse("$level(width=5,alignment='>')").unwrap();
    assert_eq!(p.render_event(&event("WARN", "t")), " WARN");
}

#[test]
fn level_width_left_align() {
    let p = Pattern::try_parse("$level(width=5,alignment='<')").unwrap();
    assert_eq!(p.render_event(&event("WARN", "t")), "WARN ");
}

#[test]
fn level_width_without_alignment_unpadded() {
    let p = Pattern::try_parse("$level(width=5)").unwrap();
    assert_eq!(p.render_event(&event("WARN", "t")), "WARN");
}

#[test]
fn width_shorter_than_value_leaves_it() {
    let p = Pattern::try_parse("$level(width=2,alignment='>')").unwrap();
    assert_eq!(p.render_event(&event("WARN", "t")), "WARN");
}

#[test]
fn unknown_placeholder_dropped() {
    let p = Pattern::try_parse("a$bogus(v=1)b").unwrap();
    assert_eq!(p.items().len(), 2);
    assert_eq!(p.render_event(&event("INFO", "t")), "ab");
}

#[test]
fn unknown_placeholder_bare_dropped() {
    let p = Pattern::try_parse("x $bogus y").unwrap();
    assert_eq!(p.render_event(&event("INFO", "t")), "x  y");
}

#[test]
fn span_args_wrapped() {
    let p = Pattern::try_parse("$span(args, args_prefix='{', args_suffix='}')").unwrap();
    let mut sf = FieldsVisitor::new();
    sf.record_i64("arg", 1);
    sf.record_str("arg", "test");
    let mut e = event("INFO", "t");
    e.span = Some(SpanData { name: "test".to_string(), fields: Some(sf) });
    let out = p.render_event(&e);
    assert!(out.starts_with("test{"), "got {}", out);
    assert!(out.ends_with("}"), "got {}", out);
    assert!(out.contains("1"), "got {}", out);
    assert!(out.contains("`test`"), "got {}", out);
}

#[test]
fn span_without_args_flag_is_name_only() {
    let p = Pattern::try_parse("$span(args_prefix='{')").unwrap();
    let mut sf = FieldsVisitor::new();
    sf.record_i64("arg", 1);
    let mut e = event("INFO", "t");
    e.span = Some(SpanData { name: "job".to_string(), fields: Some(sf) });
    assert_eq!(p.render_event(&e), "job");
}

#[test]
fn span_args_without_values_is_name_only() {
    let p = Pattern::try_parse("$span(args, args_prefix='{', args_suffix='}')").unwrap();
    let mut e = event("INFO", "t");
    e.span = Some(SpanData { name: "job".to_string(), fields: Some(FieldsVisitor::new()) });
    assert_eq!(p.render_event(&e), "job");
}

#[test]
fn missing_span_contributes_nothing() {
    let p = Pattern::try_parse("a$span(prefix='::')b").unwrap();
    assert_eq!(p.render_event(&event("INFO", "t")), "ab");
}

#[test]
fn unterminated_quote_fails() {
    let t = "$text(value='abc";
    let e = Pattern::try_parse(t).unwrap_err();
    assert_eq!(e.kind(), ParseErrorKind::UnterminatedQuote);
    assert_eq!(e.position(), t.chars().count());
}

#[test]
fn unterminated_args_fails() {
    let e = Pattern::try_parse("$text(value").unwrap_err();
    assert_eq!(e.kind(), ParseErrorKind::UnterminatedArgs);
}

#[test]
fn invalid_number_fails() {
    let e = Pattern::try_parse("$text(width=12x4)").unwrap_err();
    assert_eq!(e.kind(), ParseErrorKind::InvalidNumber);
}

#[test]
fn number_out_of_range_fails() {
    let e = Pattern::try_parse("$text(width=99999999999)").unwrap_err();
    assert_eq!(e.kind(), ParseErrorKind::InvalidNumber);
}

#[test]
fn invalid_word_fails() {
    let e = Pattern::try_parse("$text(flag=tru)").unwrap_err();
    assert_eq!(e.kind(), ParseErrorKind::InvalidLiteral);
}

#[test]
fn unexpected_char_fails_with_position() {
    let e = Pattern::try_parse("$text(=1)").unwrap_err();
    assert_eq!(e.kind(), ParseErrorKind::UnexpectedChar);
    assert_eq!(e.position(), 6);
}

#[test]
fn type_names_ignore_ascii_case() {
    assert_eq!(PlaceholderType::from_str("LEVEL"), Some(PlaceholderType::Level));
    assert_eq!(PlaceholderType::from_str("DateTime"), Some(PlaceholderType::DateTime));
    assert_eq!(PlaceholderType::from_str("message"), Some(PlaceholderType::Message));
    assert_eq!(PlaceholderType::from_str("fields"), Some(PlaceholderType::Fields));
    assert_eq!(PlaceholderType::from_str("sPaN"), Some(PlaceholderType::Span));
    assert_eq!(PlaceholderType::from_str("TARGET"), Some(PlaceholderType::Target));
    assert_eq!(PlaceholderType::from_str("file"), Some(PlaceholderType::File));
    assert_eq!(PlaceholderType::from_str("Line"), Some(PlaceholderType::Line));
    assert_eq!(PlaceholderType::from_str("text"), Some(PlaceholderType::Text));
    assert_eq!(PlaceholderType::from_str("bogus"), None);
}

#[test]
fn format_values_wraps_text_in_backticks() {
    let mut f = FieldsVisitor::new();
    f.record_str("k", "v");
    assert_eq!(f.format_values(), "k=`v`");
}

#[test]
fn format_values_numeric_kinds() {
    let mut f = FieldsVisitor::new();
    f.record_i64("a", -5);
    f.record_u64("b", 7);
    f.record_bool("c", true);
    f.record_u128("d", 340282366920938463463374607431768211455);
    f.record_i128("e", -170141183460469231731687303715884105728);
    let out = f.format_values();
    assert_eq!(
        out,
        "a=-5,b=7,c=true,d=340282366920938463463374607431768211455,e=-170141183460469231731687303715884105728"
    );
}

#[test]
fn float_value_recorded_as_text() {
    let mut f = FieldsVisitor::new();
    f.record_f64("r", format!("{}", 1.5f64));
    assert_eq!(f.format_values(), "r=1.5");
}

#[test]
fn message_filled_once_later_ignored() {
    let mut f = FieldsVisitor::new();
    f.record_str("message", "first");
    f.record_str("message", "second");
    assert_eq!(f.message(), "first");
    assert!(!f.has_values());
}

#[test]
fn message_from_integer_record() {
    let mut f = FieldsVisitor::new();
    f.record_i64("message", 5);
    assert_eq!(f.message(), "5");
}

#[test]
fn placeholder_accessors() {
    let p =
        Pattern::try_parse("$text(value='v', width=3, flag, ok=true, ratio=1.5)").unwrap();
    assert_eq!(p.items().len(), 1);
    match &p.items()[0] {
        PatternItem::Placeholder(ph) => {
            assert_eq!(*ph.ty(), PlaceholderType::Text);
            assert_eq!(ph.str("value"), Some("v"));
            assert_eq!(ph.integer("width"), Some(3));
            assert_eq!(ph.bool("ok"), Some(true));
            assert_eq!(ph.float("ratio"), Some("1.5"));
            assert!(ph.flag("flag"));
            assert!(!ph.flag("FLAG"));
            assert!(!ph.flag("other"));
            assert_eq!(ph.str("width"), None);
            assert_eq!(ph.integer("value"), None);
            assert_eq!(ph.property("missing"), None);
            assert_eq!(ph.property("ok"), Some(&PlaceholderValue::Boolean(true)));
        },
        PatternItem::Text(_) => panic!("expected a placeholder"),
    }
}

#[test]
fn negative_integer_property() {
    let p = Pattern::try_parse("$text(width=-12)").unwrap();
    match &p.items()[0] {
        PatternItem::Placeholder(ph) => {
            assert_eq!(ph.integer("width"), Some(-12));
        },
        PatternItem::Text(_) => panic!("expected a placeholder"),
    }
}

#[test]
fn repeated_property_takes_last_value() {
    let p = Pattern::try_parse("$text(value='a', value='b')").unwrap();
    match &p.items()[0] {
        PatternItem::Placeholder(ph) => {
            assert_eq!(ph.str("value"), Some("b"));
        },
        PatternItem::Text(_) => panic!("expected a placeholder"),
    }
}

#[test]
fn text_placeholder_emits_value() {
    let p = Pattern::try_parse("$text(value='hi', prefix='<', suffix='>')").unwrap();
    assert_eq!(p.render_event(&event("INFO", "t")), "<hi>");
}

#[test]
fn quoted_value_keeps_special_characters() {
    let p = Pattern::try_parse("$text(value='a b,c)=$')").unwrap();
    assert_eq!(p.render_event(&event("INFO", "t")), "a b,c)=$");
}

#[test]
fn prefix_suffix_dropped_without_value() {
    let p = Pattern::try_parse("$file(prefix='[', suffix=']')").unwrap();
    let mut e = event("INFO", "t");
    assert_eq!(p.render_event(&e), "");
    e.file = Some("main.rs".to_string());
    assert_eq!(p.render_event(&e), "[main.rs]");
}

#[test]
fn line_renders_as_decimal() {
    let p = Pattern::try_parse("$line").unwrap();
    let mut e = event("INFO", "t");
    assert_eq!(p.render_event(&e), "");
    e.line = Some(18446744073709551615);
    assert_eq!(p.render_event(&e), "18446744073709551615");
}

#[test]
fn target_and_level_render() {
    let p = Pattern::try_parse("$level $target").unwrap();
    assert_eq!(p.render_event(&event("INFO", "app::db")), "INFO app::db");
}

#[test]
fn fields_placeholder_skipped_when_empty() {
    let p = Pattern::try_parse("a$fields(prefix='{', suffix='}')b").unwrap();
    let mut e = event("INFO", "t");
    assert_eq!(p.render_event(&e), "ab");
    e.fields.record_str("test", "123");
    assert_eq!(p.render_event(&e), "a{test=`123`}b");
}

#[test]
fn adjacent_placeholders_parse() {
    let p = Pattern::try_parse("$level$target").unwrap();
    assert_eq!(p.items().len(), 2);
    assert_eq!(p.render_event(&event("INFO", "t")), "INFOt");
}

#[test]
fn empty_template_is_empty_pattern() {
    let p = Pattern::try_parse("").unwrap();
    assert_eq!(p.items().len(), 0);
    assert_eq!(p.render_event(&event("INFO", "t")), "");
}

#[test]
fn empty_argument_list_parses() {
    let p = Pattern::try_parse("$level()").unwrap();
    assert_eq!(p.render_event(&event("INFO", "t")), "INFO");
}

#[test]
fn pattern_new_items_into_inner() {
    let items = vec![
        PatternItem::Text("x".to_string()),
        PatternItem::Text("y".to_string()),
    ];
    let p = Pattern::new(items);
    assert_eq!(p.items().len(), 2);
    let back = p.into_inner();
    assert_eq!(back.len(), 2);
    assert_eq!(back[0], PatternItem::Text("x".to_string()));
}

#[test]
fn datetime_default_has_fixed_shape() {
    let p = Pattern::try_parse("$datetime").unwrap();
    let out = p.render_event(&event("INFO", "t"));
    let b: Vec<char> = out.chars().collect();
    assert!(b.len() >= 26, "got {}", out);
    assert_eq!(b[4], '-');
    assert_eq!(b[7], '-');
    assert_eq!(b[10], ' ');
    assert_eq!(b[13], ':');
    assert_eq!(b[16], ':');
    assert_eq!(b[19], '.');
    assert!(b[20..26].iter().all(|c| c.is_ascii_digit()), "got {}", out);
}

#[test]
fn datetime_custom_format() {
    let p = Pattern::try_parse("$datetime(fmt='%Y')").unwrap();
    let out = p.render_event(&event("INFO", "t"));
    assert_eq!(out.len(), 4);
    assert!(out.chars().all(|c| c.is_ascii_digit()), "got {}", out);
}

#[test]
fn datetime_bad_format_absorbed() {
    let p = Pattern::try_parse("a$datetime(fmt='%Q')b").unwrap();
    assert_eq!(p.render_event(&event("INFO", "t")), "ab");
}

#[test]
fn full_template_renders() {
    let p = Pattern::try_parse(
        "$level(width = 5, alignment = '>') $target$fields(prefix = '{', suffix = '}')$span(prefix = '::', args, args_prefix ='{', args_suffix = '}'): $message",
    )
    .unwrap();
    let mut sf = FieldsVisitor::new();
    sf.record_i64("arg", 1);
    sf.record_str("arg", "test");
    let mut e = event("INFO", "demo");
    e.fields.record_str("message", "Hello, world!");
    e.fields.record_str("test", "123");
    e.span = Some(SpanData { name: "test".to_string(), fields: Some(sf) });
    let out = p.render_event(&e);
    assert_eq!(out, " INFO demo{test=`123`}::test{arg=[1,`test`]}: Hello, world!");
}

#[test]
fn parse_failure_is_deterministic() {
    let t = "$text(value='oops";
    let a = Pattern::try_parse(t).unwrap_err();
    let b = Pattern::try_parse(t).unwrap_err();
    assert_eq!(a, b);
}

#[test]
fn message_from_float_record() {
    let mut f = FieldsVisitor::new();
    f.record_f64("message", format!("{}", 3.25f64));
    assert_eq!(f.message(), "3.25");
}

#[test]
fn negative_width_leaves_value_unpadded() {
    let p = Pattern::try_parse("$level(width=-3,alignment='>')").unwrap();
    assert_eq!(p.render_event(&event("INFO", "t")), "INFO");
}

#[test]
fn render_without_datetime_is_repeatable() {
    let p = Pattern::try_parse("$level $target: $message").unwrap();
    let mut e = event("INFO", "app");
    e.fields.record_str("message", "same");
    let a = p.render_event(&e);
    let b = p.render_event(&e);
    assert_eq!(a, b);
}

#[test]
fn negative_decimal_property_kept_as_text() {
    let p = Pattern::try_parse("$text(ratio=-1.5)").unwrap();
    match &p.items()[0] {
        PatternItem::Placeholder(ph) => {
            assert_eq!(ph.float("ratio"), Some("-1.5"));
        },
        PatternItem::Text(_) => panic!("expected a placeholder"),
    }
}

#[test]
fn event_value_plain_text() {
    assert_eq!(EventValue::I64(-3).to_text(), "-3");
    assert_eq!(EventValue::U64(12).to_text(), "12");
    assert_eq!(EventValue::Bool(false).to_text(), "false");
    assert_eq!(EventValue::String("x".to_string()).to_text(), "x");
    assert_eq!(EventValue::F64("2.5".to_string()).to_text(), "2.5");
}

#[test]
fn nearest_span_prefers_declared_parent() {
    let a = SpanData { name: "parent".to_string(), fields: None };
    let b = SpanData { name: "current".to_string(), fields: None };
    assert_eq!(nearest_span(Some(a), Some(b)).unwrap().name, "parent");
    let b = SpanData { name: "current".to_string(), fields: None };
    assert_eq!(nearest_span(None, Some(b)).unwrap().name, "current");
    assert!(nearest_span(None, None).is_none());
}
