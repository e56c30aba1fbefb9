use image_fetcher::mode::{select_mode, RunMode};

#[test]
fn existing_artifact_selects_inspection() {
    assert_eq!(select_mode(true), RunMode::Inspect);
}

#[test]
fn missing_artifact_selects_fetching() {
    assert_eq!(select_mode(false), RunMode::Fetch);
}
