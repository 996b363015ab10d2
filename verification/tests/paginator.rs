use analog::paginator::{Page, Paginator, RemoteCallError};

fn page(items: &[u32], next: Option<&str>) -> Page<u32> {
    Page { items: items.to_vec(), next_token: next.map(|token| token.to_string()) }
}

fn failure(message: &str) -> RemoteCallError {
    RemoteCallError { message: message.to_string() }
}

/// Answers the fetches of a listing from `answers`, and returns what the
/// listing came to with the cursors that its fetches carried.
fn drive(
    answers: Vec<Result<Page<u32>, RemoteCallError>>,
) -> (Option<Result<Vec<u32>, RemoteCallError>>, Vec<Option<String>>) {
    let mut paginator: Paginator<u32> = Paginator::new();
    let mut cursors = Vec::new();
    let mut answers = answers.into_iter();
    while paginator.is_fetching() {
        let answer = match answers.next() {
            Some(answer) => answer,
            None => break,
        };
        cursors.push(paginator.cursor());
        paginator = match answer {
            Ok(page) => paginator.on_page(page),
            Err(error) => paginator.on_failure(error),
        };
    }
    (paginator.finish(), cursors)
}

#[test]
fn pages_are_concatenated_in_the_order_of_the_remote() {
    let (result, cursors) = drive(vec![
        Ok(page(&[3, 1], Some("c0"))),
        Ok(page(&[], Some("c1"))),
        Ok(page(&[2], Some("c2"))),
        Ok(page(&[9, 9], None)),
    ]);
    assert_eq!(result, Some(Ok(vec![3, 1, 2, 9, 9])));
    assert_eq!(
        cursors,
        vec![None, Some("c0".to_string()), Some("c1".to_string()), Some("c2".to_string())]
    );
}

#[test]
fn a_listing_of_n_plus_one_pages_makes_n_plus_one_fetches() {
    let (result, cursors) = drive(vec![
        Ok(page(&[1], Some("a"))),
        Ok(page(&[2], Some("b"))),
        Ok(page(&[3], None)),
        Ok(page(&[4], None)),
    ]);
    assert_eq!(result, Some(Ok(vec![1, 2, 3])));
    assert_eq!(cursors.len(), 3);
}

#[test]
fn a_single_page_without_cursor_is_the_whole_listing() {
    let (result, cursors) = drive(vec![Ok(page(&[7, 8], None))]);
    assert_eq!(result, Some(Ok(vec![7, 8])));
    assert_eq!(cursors, vec![None]);
}

#[test]
fn an_empty_last_page_ends_the_listing() {
    let (result, cursors) = drive(vec![Ok(page(&[], None))]);
    assert_eq!(result, Some(Ok(Vec::new())));
    assert_eq!(cursors.len(), 1);
}

#[test]
fn a_failed_fetch_fails_the_listing_without_partial_result() {
    let (result, cursors) = drive(vec![
        Ok(page(&[1, 2], Some("a"))),
        Ok(page(&[3], Some("b"))),
        Err(failure("throttled")),
        Ok(page(&[4], None)),
    ]);
    assert_eq!(result, Some(Err(failure("throttled"))));
    assert_eq!(cursors.len(), 3);
}

#[test]
fn a_failed_first_fetch_fails_the_listing() {
    let (result, cursors) = drive(vec![Err(failure("denied"))]);
    assert_eq!(result, Some(Err(failure("denied"))));
    assert_eq!(cursors, vec![None]);
}

#[test]
fn a_listing_in_progress_has_no_result() {
    let paginator: Paginator<u32> = Paginator::new();
    assert!(paginator.is_fetching());
    assert_eq!(paginator.cursor(), None);
    assert_eq!(paginator.finish(), None);
    let paginator: Paginator<u32> = Paginator::new().on_page(page(&[1], Some("more")));
    assert!(paginator.is_fetching());
    assert_eq!(paginator.cursor(), Some("more".to_string()));
    assert_eq!(paginator.finish(), None);
}

#[test]
fn an_ended_listing_takes_no_further_answer() {
    let complete = Paginator::new().on_page(page(&[1], None));
    assert!(!complete.is_fetching());
    assert_eq!(complete.cursor(), None);
    let complete = complete.on_page(page(&[2], Some("x"))).on_failure(failure("late"));
    assert!(!complete.is_fetching());
    assert_eq!(complete.finish(), Some(Ok(vec![1])));

    let failed: Paginator<u32> = Paginator::new().on_failure(failure("first"));
    let failed = failed.on_failure(failure("second")).on_page(page(&[5], None));
    assert_eq!(failed.finish(), Some(Err(failure("first"))));
}

#[test]
fn a_response_without_items_is_an_empty_page() {
    let empty: Page<u32> = Page::from_response(None, Some("next".to_string()));
    assert_eq!(empty, page(&[], Some("next")));
    let full: Page<u32> = Page::from_response(Some(vec![1, 2]), None);
    assert_eq!(full, page(&[1, 2], None));
}
