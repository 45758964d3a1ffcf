use quote_command::{
    is_list_selector, list_url, random_quote, resolve, respond, select_drawn, select_index,
    split_lines, CommandError, FetchError, QuoteOption, LIST_URL_BASE, MAX_INDEX,
};

fn strings(items: &[&str]) -> Vec<String> {
    items.iter().map(|s| s.to_string()).collect()
}

#[test]
fn split_three_lines() {
    assert_eq!(split_lines("a\nb\nc"), strings(&["a", "b", "c"]));
}

#[test]
fn split_empty_body() {
    assert_eq!(split_lines(""), Vec::<String>::new());
}

#[test]
fn split_keeps_empty_lines() {
    assert_eq!(split_lines("a\n\nb"), strings(&["a", "", "b"]));
    assert_eq!(split_lines("\n"), strings(&[""]));
    assert_eq!(split_lines("\n\n"), strings(&["", ""]));
}

#[test]
fn split_final_newline_is_optional() {
    assert_eq!(split_lines("a\nb\n"), strings(&["a", "b"]));
    assert_eq!(split_lines("a\nb"), strings(&["a", "b"]));
}

#[test]
fn split_crlf_endings() {
    assert_eq!(split_lines("a\r\nb\r\n"), strings(&["a", "b"]));
    assert_eq!(split_lines("a\r\n\r\nb"), strings(&["a", "", "b"]));
    assert_eq!(split_lines("a\r"), strings(&["a\r"]));
}

#[test]
fn split_matches_std_lines() {
    for body in ["", "x", "1.Hi\n2.Bye", "é\nü\r\nß", "\r\n", "a\rb\nc", " \n \n"] {
        let expected: Vec<String> = body.lines().map(str::to_string).collect();
        assert_eq!(split_lines(body), expected, "body {:?}", body);
    }
}

#[test]
fn list_url_embeds_token() {
    assert_eq!(
        list_url("T"),
        "https://twitch.center/customapi/quote/list?token=T".to_string()
    );
    assert_eq!(list_url(""), LIST_URL_BASE.to_string());
}

#[test]
fn index_selects_exact_quote() {
    let q = strings(&["a", "b", "c"]);
    assert_eq!(select_index(&q, 0), Ok("a".to_string()));
    assert_eq!(select_index(&q, 2), Ok("c".to_string()));
}

#[test]
fn index_past_end_not_found() {
    let q = strings(&["a", "b", "c"]);
    assert_eq!(select_index(&q, 3), Err(CommandError::NotFound));
    assert_eq!(select_index(&q, MAX_INDEX), Err(CommandError::NotFound));
    assert_eq!(select_index(&Vec::new(), 0), Err(CommandError::NotFound));
}

#[test]
fn index_out_of_range_invalid_usage() {
    let q = strings(&["a", "b", "c"]);
    assert_eq!(select_index(&q, -1), Err(CommandError::InvalidUsage));
    assert_eq!(select_index(&q, i64::MIN), Err(CommandError::InvalidUsage));
    assert_eq!(select_index(&q, MAX_INDEX + 1), Err(CommandError::InvalidUsage));
    assert_eq!(select_index(&q, i64::MAX), Err(CommandError::InvalidUsage));
}

#[test]
fn drawn_number_wraps_around() {
    let q = strings(&["a", "b", "c"]);
    assert_eq!(select_drawn(&q, 1), Ok("b".to_string()));
    assert_eq!(select_drawn(&q, 4), Ok("b".to_string()));
    assert_eq!(select_drawn(&Vec::new(), 4), Err(CommandError::Empty));
}

#[test]
fn random_quote_is_member() {
    let q = strings(&["a", "b", "c"]);
    let mut seen: Vec<String> = Vec::new();
    for _ in 0..200 {
        let r = random_quote(&q).unwrap();
        assert!(q.contains(&r));
        if !seen.contains(&r) {
            seen.push(r);
        }
    }
    assert!(seen.len() > 1);
    let one = strings(&["only"]);
    assert_eq!(random_quote(&one), Ok("only".to_string()));
}

#[test]
fn random_quote_of_empty_list() {
    assert_eq!(random_quote(&Vec::new()), Err(CommandError::Empty));
}

#[test]
fn list_selector_recognised() {
    assert!(is_list_selector("list"));
    assert!(!is_list_selector(" list"));
    assert!(!is_list_selector("List"));
    assert!(!is_list_selector(""));
}

#[test]
fn resolve_trims_selector() {
    let q = strings(&["a"]);
    let opt = QuoteOption::Text("  list\n".to_string());
    assert_eq!(resolve(&opt, "T", &q, 0), Ok(list_url("T")));
    let opt = QuoteOption::Text("lists".to_string());
    assert_eq!(resolve(&opt, "T", &q, 0), Err(CommandError::InvalidUsage));
}

#[test]
fn resolve_other_shape_invalid_usage() {
    let q = strings(&["a"]);
    assert_eq!(resolve(&QuoteOption::Other, "T", &q, 0), Err(CommandError::InvalidUsage));
}

#[test]
fn resolve_draw_and_index() {
    let q = strings(&["a", "b"]);
    assert_eq!(resolve(&QuoteOption::Absent, "T", &q, 1), Ok("b".to_string()));
    assert_eq!(resolve(&QuoteOption::Index(0), "T", &q, 1), Ok("a".to_string()));
}

#[test]
fn list_answer_ignores_contents() {
    let opt = QuoteOption::Text("list".to_string());
    let a = respond(&opt, "T", Ok("1.Hi\n2.Bye".to_string()));
    let b = respond(&opt, "T", Ok(String::new()));
    assert_eq!(a, b);
    assert_eq!(
        a,
        Ok("https://twitch.center/customapi/quote/list?token=T".to_string())
    );
}

#[test]
fn scenario_hi_bye() {
    let body = "1.Hi\n2.Bye";
    assert_eq!(split_lines(body), strings(&["1.Hi", "2.Bye"]));
    assert_eq!(
        respond(&QuoteOption::Index(1), "T", Ok(body.to_string())),
        Ok("2.Bye".to_string())
    );
    assert_eq!(
        respond(&QuoteOption::Index(5), "T", Ok(body.to_string())),
        Err(CommandError::NotFound)
    );
    for _ in 0..100 {
        let r = respond(&QuoteOption::Absent, "T", Ok(body.to_string())).unwrap();
        assert!(r == "1.Hi" || r == "2.Bye");
    }
}

#[test]
fn empty_body_random_pick_is_empty() {
    assert_eq!(
        respond(&QuoteOption::Absent, "T", Ok(String::new())),
        Err(CommandError::Empty)
    );
}

#[test]
fn fetch_failure_is_upstream() {
    assert_eq!(
        respond(&QuoteOption::Index(0), "T", Err(FetchError::Network)),
        Err(CommandError::Upstream)
    );
    assert_eq!(
        respond(&QuoteOption::Text("list".to_string()), "T", Err(FetchError::Network)),
        Err(CommandError::Upstream)
    );
}

#[test]
fn error_messages() {
    assert_eq!(CommandError::NotFound.message(), "Couldn't find the quote");
    assert_eq!(
        CommandError::InvalidUsage.message(),
        "Invalid usage: give a quote number, or `list`"
    );
    assert_eq!(CommandError::ConfigMissing.message(), "Quotes token not present");
    assert_eq!(CommandError::Upstream.message(), "Couldn't fetch the quotes");
    assert_eq!(CommandError::Empty.message(), "There are no quotes yet");
}
