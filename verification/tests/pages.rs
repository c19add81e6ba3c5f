use r_ecipe_s::api::{bearer_header, http_failure, recipe_path, recipes_path, Error as ApiError};
use r_ecipe_s::forms::{
    formatted_quantity, quantity_from_symbol, quantity_handler, PageState, QuantityError,
};
use r_ecipe_s::model::{
    matches_count, matches_gram, matches_ml, matches_tsp, Quantity, COUNT, GRAM, ML, TSP,
};
use r_ecipe_s::util::{background, markdown_to_html, FrontErr};

fn all() -> Vec<Quantity> {
    vec![Quantity::Count(2), Quantity::Tsp(3), Quantity::Gram(500), Quantity::Ml(0)]
}

#[test]
fn a_quantity_has_a_unit_and_an_amount() {
    assert_eq!(Quantity::Count(2).label(), "count");
    assert_eq!(Quantity::Tsp(3).label(), "tsp");
    assert_eq!(Quantity::Gram(500).label(), "gram");
    assert_eq!(Quantity::Ml(0).label(), "ml");
    assert_eq!((COUNT, TSP, GRAM, ML), ("count", "tsp", "gram", "ml"));
    let amounts: Vec<usize> = all().iter().map(|q| q.value()).collect();
    assert_eq!(amounts, vec![2, 3, 500, 0]);
    assert_eq!(Quantity::default(), Quantity::Count(0));
}

#[test]
fn each_unit_is_told_from_the_others() {
    let told: Vec<(bool, bool, bool, bool)> = all()
        .iter()
        .map(|q| (matches_count(q), matches_tsp(q), matches_gram(q), matches_ml(q)))
        .collect();
    assert_eq!(
        told,
        vec![
            (true, false, false, false),
            (false, true, false, false),
            (false, false, true, false),
            (false, false, false, true)
        ]
    );
}

#[test]
fn a_quantity_is_had_back_from_its_unit_and_amount() {
    for quantity in all() {
        assert_eq!(quantity_from_symbol(quantity.label(), Ok(quantity.value())), Ok(quantity));
    }
}

#[test]
fn a_unit_that_is_none_of_the_four_is_refused() {
    for symbol in ["", "cup", "Count", "grams", " ml"] {
        assert_eq!(
            quantity_from_symbol(symbol, Ok(1)),
            Err(QuantityError::InvalidType(symbol.to_string()))
        );
    }
}

#[test]
fn an_amount_that_was_not_read_is_passed_on() {
    let failed = QuantityError::ParseNumber("x".to_string());
    assert_eq!(quantity_from_symbol("gram", Err(failed.clone())), Err(failed.clone()));
    assert_eq!(quantity_from_symbol("cup", Err(failed.clone())), Err(failed));
}

#[test]
fn an_amount_is_a_number_without_a_minus() {
    assert_eq!(quantity_handler("0"), Ok(0));
    assert_eq!(quantity_handler("250"), Ok(250));
    assert_eq!(quantity_handler("+3"), Ok(3));
    for typed in ["", "-1", "1.5", "ten", "99999999999999999999999"] {
        assert_eq!(quantity_handler(typed), Err(QuantityError::ParseNumber(typed.to_string())));
        assert_eq!(quantity_handler(typed).ok(), typed.parse::<usize>().ok());
    }
}

#[test]
fn a_quantity_is_shown_with_the_sign_of_its_unit() {
    let shown: Vec<String> = all().iter().map(formatted_quantity).collect();
    assert_eq!(shown, vec!["2", "3 tsp.", "500 g", "0 ml"]);
}

#[test]
fn the_last_page_is_where_the_offset_is_the_number_of_pages() {
    assert!(PageState { offset: 3, total_pages: 3 }.at_last_page());
    assert!(!PageState { offset: 2, total_pages: 3 }.at_last_page());
    assert!(PageState { offset: 0, total_pages: 0 }.at_last_page());
    assert!(PageState { offset: u32::MAX, total_pages: -1 }.at_last_page());
    assert!(PageState { offset: 1, total_pages: (1 << 32) + 1 }.at_last_page());
}

#[test]
fn requests_are_addressed() {
    assert_eq!(recipes_path(0), "/api/v1/recipes?offset=0");
    assert_eq!(recipes_path(12), "/api/v1/recipes?offset=12");
    assert_eq!(recipe_path(7), "/api/v1/recipes/7");
    assert_eq!(recipe_path(-7), "/api/v1/recipes/-7");
}

#[test]
fn a_change_needs_a_token() {
    assert_eq!(bearer_header(Some("abc")), Ok("Bearer abc".to_string()));
    assert_eq!(bearer_header(Some("")), Ok("Bearer ".to_string()));
    assert_eq!(bearer_header(None), Err(ApiError::Forbidden));
}

#[test]
fn an_answer_that_is_no_success_is_a_failure() {
    assert_eq!(
        http_failure("Not Found", 404, "no such recipe"),
        ApiError::Http("Not Found 404 - no such recipe".to_string())
    );
}

#[test]
fn an_image_goes_behind_an_element() {
    assert_eq!(background("next.svg"), "background-image: url(/static/next.svg)");
    assert_eq!(background(""), "background-image: url(/static/)");
}

#[test]
fn a_failure_on_a_page_has_a_text() {
    assert_eq!(FrontErr::Message("no luck".to_string()).message(), "Error: no luck");
}

#[test]
fn markdown_becomes_html() {
    assert_eq!(markdown_to_html("hello"), "<p>hello</p>\n");
    assert_eq!(markdown_to_html(""), "");
    assert_eq!(
        markdown_to_html("# Soup\n\n* leek\n* salt\n"),
        "<h1>Soup</h1>\n<ul>\n<li>leek</li>\n<li>salt</li>\n</ul>\n"
    );
    assert_eq!(markdown_to_html("*stir* **well**"), "<p><em>stir</em> <strong>well</strong></p>\n");
}

#[test]
fn markdown_is_rendered_with_strikethrough() {
    assert_eq!(markdown_to_html("~~butter~~ oil"), "<p><del>butter</del> oil</p>\n");
}

#[test]
fn markdown_is_rendered_without_tables() {
    let text = "| a | b |\n|---|---|\n| 1 | 2 |\n";
    assert!(!markdown_to_html(text).contains("<table>"));
}
