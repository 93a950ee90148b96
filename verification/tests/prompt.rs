use greeter::prompt::{
    Prompter, EXCITEMENT_ERROR, EXCITEMENT_PROMPT, YEAR_ERROR, YEAR_PROMPT,
};

fn lines(texts: &[&str]) -> Vec<String> {
    texts.iter().map(|t| t.to_string()).collect()
}

#[test]
fn the_excitement_prompter_has_its_texts_and_bounds() {
    let p = Prompter::excitement();
    assert_eq!(p.prompt, "On a scale of 1-10, how excited are you to learn Rust?");
    assert_eq!(p.error, "❌ Please enter a valid number between 1 and 10.");
    assert_eq!(p.lower, 1);
    assert_eq!(p.upper, 10);
    assert_eq!(p.prompt, EXCITEMENT_PROMPT);
    assert_eq!(p.error, EXCITEMENT_ERROR);
}

#[test]
fn the_year_prompter_has_its_texts_and_bounds() {
    let p = Prompter::year();
    assert_eq!(p.prompt, "Which year is it?");
    assert_eq!(p.error, "❌ Please enter a valid year (e.g., 2024).");
    assert_eq!(p.lower, 1900);
    assert_eq!(p.upper, 2100);
    assert_eq!(p.prompt, YEAR_PROMPT);
    assert_eq!(p.error, YEAR_ERROR);
}

#[test]
fn excitement_accepts_every_level_of_the_scale() {
    let p = Prompter::excitement();
    for v in 1..=10 {
        assert_eq!(p.accept(format!("{}\n", v).as_str()), Some(v));
    }
}

#[test]
fn excitement_refuses_what_is_off_the_scale() {
    let p = Prompter::excitement();
    assert_eq!(p.accept("0\n"), None);
    assert_eq!(p.accept("11\n"), None);
    assert_eq!(p.accept("-1\n"), None);
    assert_eq!(p.accept("100\n"), None);
    assert_eq!(p.accept("2147483647\n"), None);
    assert_eq!(p.accept("2147483648\n"), None);
}

#[test]
fn excitement_refuses_what_is_no_number() {
    let p = Prompter::excitement();
    assert_eq!(p.accept("x\n"), None);
    assert_eq!(p.accept("\n"), None);
    assert_eq!(p.accept(""), None);
    assert_eq!(p.accept("five\n"), None);
    assert_eq!(p.accept("5.0\n"), None);
    assert_eq!(p.accept("5 5\n"), None);
    assert_eq!(p.accept("9/10\n"), None);
}

#[test]
fn an_answer_may_carry_whitespace_and_a_sign() {
    let p = Prompter::excitement();
    assert_eq!(p.accept("  7  \r\n"), Some(7));
    assert_eq!(p.accept("+7"), Some(7));
    assert_eq!(p.accept("007"), Some(7));
    assert_eq!(p.accept("\t10"), Some(10));
}

#[test]
fn year_accepts_the_bounds_and_what_lies_between() {
    let p = Prompter::year();
    assert_eq!(p.accept("1900\n"), Some(1900));
    assert_eq!(p.accept("2100\n"), Some(2100));
    assert_eq!(p.accept("2024\n"), Some(2024));
    for v in 1900..=2100 {
        assert_eq!(p.accept(format!("{}\n", v).as_str()), Some(v));
    }
}

#[test]
fn year_refuses_what_lies_outside() {
    let p = Prompter::year();
    assert_eq!(p.accept("1899\n"), None);
    assert_eq!(p.accept("2101\n"), None);
    assert_eq!(p.accept("0\n"), None);
    assert_eq!(p.accept("-2024\n"), None);
    assert_eq!(p.accept("twenty\n"), None);
    assert_eq!(p.accept("\n"), None);
}

#[test]
fn an_accepted_first_line_ends_the_asking() {
    let p = Prompter::excitement();
    let asked = p.ask(&lines(&["9\n", "3\n", "x\n"]));
    assert_eq!(asked.value, Some(9));
    assert_eq!(asked.consumed, 1);
    assert_eq!(asked.printed, vec![EXCITEMENT_PROMPT.to_string()]);
}

#[test]
fn a_refused_line_prints_the_error_and_asks_again() {
    let p = Prompter::excitement();
    let asked = p.ask(&lines(&["x\n", "9\n"]));
    assert_eq!(asked.value, Some(9));
    assert_eq!(asked.consumed, 2);
    assert_eq!(
        asked.printed,
        vec![
            EXCITEMENT_PROMPT.to_string(),
            EXCITEMENT_ERROR.to_string(),
            EXCITEMENT_PROMPT.to_string(),
        ]
    );
}

#[test]
fn every_refused_line_costs_one_more_read() {
    let p = Prompter::year();
    let asked = p.ask(&lines(&["1899", "x", "", "2101", "2024", "1950"]));
    assert_eq!(asked.value, Some(2024));
    assert_eq!(asked.consumed, 5);
    assert_eq!(asked.printed.len(), 9);
    for (i, line) in asked.printed.iter().enumerate() {
        if i % 2 == 0 {
            assert_eq!(line, YEAR_PROMPT);
        } else {
            assert_eq!(line, YEAR_ERROR);
        }
    }
}

#[test]
fn asking_stops_where_the_lines_run_out() {
    let p = Prompter::excitement();
    let asked = p.ask(&lines(&["x", "0", "11"]));
    assert_eq!(asked.value, None);
    assert_eq!(asked.consumed, 3);
    assert_eq!(asked.printed.len(), 7);
    assert_eq!(asked.printed[6], EXCITEMENT_PROMPT);
    assert_eq!(asked.printed[5], EXCITEMENT_ERROR);
}

#[test]
fn asking_without_lines_prints_the_prompt_only() {
    let p = Prompter::year();
    let asked = p.ask(&[]);
    assert_eq!(asked.value, None);
    assert_eq!(asked.consumed, 0);
    assert_eq!(asked.printed, vec![YEAR_PROMPT.to_string()]);
}

#[test]
fn a_prompter_of_ones_own() {
    let p = Prompter { prompt: "How many?", error: "No.", lower: -3, upper: 3 };
    assert_eq!(p.accept("-3"), Some(-3));
    assert_eq!(p.accept("3"), Some(3));
    assert_eq!(p.accept("-4"), None);
    assert_eq!(p.accept("4"), None);
    let asked = p.ask(&lines(&["9", "0"]));
    assert_eq!(asked.value, Some(0));
    assert_eq!(asked.consumed, 2);
    assert_eq!(asked.printed, lines(&["How many?", "No.", "How many?"]));
}

#[test]
fn a_prompter_with_crossed_bounds_accepts_nothing() {
    let p = Prompter { prompt: "?", error: "!", lower: 5, upper: 4 };
    assert_eq!(p.accept("4"), None);
    assert_eq!(p.accept("5"), None);
    let asked = p.ask(&lines(&["4", "5"]));
    assert_eq!(asked.value, None);
    assert_eq!(asked.consumed, 2);
}
