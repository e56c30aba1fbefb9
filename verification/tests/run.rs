use image_fetcher::accumulator::Accumulator;
use image_fetcher::fetch::FetchReply;
use image_fetcher::post::{completion_text, Post};
use image_fetcher::run::{fetch_all, FetchRun, StepError};

fn post(title: &str, images: &[&str]) -> Post {
    Post::new(title.to_string(), images.iter().map(|url| url.to_string()).collect())
}

fn ok(body: &[u8]) -> FetchReply {
    FetchReply::Response { status: 200, body: body.to_vec() }
}

fn status(code: u16) -> FetchReply {
    FetchReply::Response { status: code, body: b"error page".to_vec() }
}

fn broken(cause: &str) -> FetchReply {
    FetchReply::Failure { cause: cause.to_string() }
}

fn posts_from_json(text: &str) -> Vec<Post> {
    let document: serde_json::Value = serde_json::from_str(text).unwrap();
    let mut posts = Vec::new();
    for record in document.as_array().unwrap() {
        let title = record.get("title").unwrap().as_str().unwrap().to_string();
        let mut images = Vec::new();
        for url in record.get("images").unwrap().as_array().unwrap() {
            images.push(url.as_str().unwrap().to_string());
        }
        posts.push(Post::new(title, images));
    }
    posts
}

#[test]
fn one_post_one_image_fetched() {
    let posts = posts_from_json(r#"[{"title":"A","images":["http://x/1.png"]}]"#);
    assert_eq!(posts.len(), 1);
    assert_eq!(posts[0].title, "A");
    assert_eq!(posts[0].images, vec!["http://x/1.png".to_string()]);

    let body: Vec<u8> = vec![10, 11, 12, 13, 14, 15, 16, 17, 18, 19];
    let summary = fetch_all(&posts, vec![vec![ok(&body)]]).unwrap();
    assert_eq!(summary.store.len(), 1);
    assert_eq!(summary.store.get("http://x/1.png"), Some(&body));
    assert_eq!(summary.store.as_pairs(), &vec![("http://x/1.png".to_string(), body.clone())]);
    assert!(summary.log.is_empty());
    assert_eq!(summary.progress, 1);

    let artifact = summary.store.export().unwrap();
    let loaded = Accumulator::load(&artifact).unwrap();
    assert_eq!(loaded.as_pairs(), summary.store.as_pairs());
}

#[test]
fn one_image_not_found() {
    let posts = vec![post("A", &["http://x/missing.png"])];
    let summary = fetch_all(&posts, vec![vec![status(404)]]).unwrap();
    assert!(summary.store.is_empty());
    assert_eq!(summary.store.len(), 0);
    assert_eq!(summary.log.len(), 1);
    assert!(summary.log[0].contains("http://x/missing.png"));
    assert_eq!(
        summary.log[0],
        "Failed to download http://x/missing.png: HTTP status 404"
    );
    assert_eq!(summary.progress, 1);
    assert_eq!(summary.store.export().unwrap(), vec![0u8; 8]);
}

#[test]
fn progress_counts_posts_whatever_fails() {
    let posts = vec![
        post("all fail", &["http://x/a", "http://x/b"]),
        post("no images", &[]),
        post("mixed", &["http://x/c", "http://x/d", "http://x/e"]),
        post("all fine", &["http://x/f"]),
    ];
    let replies = vec![
        vec![status(500), broken("timed out")],
        vec![],
        vec![ok(&[1]), status(404), ok(&[2])],
        vec![ok(&[3])],
    ];
    let summary = fetch_all(&posts, replies).unwrap();
    assert_eq!(summary.progress, 4);
    assert_eq!(summary.progress, posts.len());
    assert_eq!(summary.store.len(), 3);
    assert_eq!(summary.log.len(), 3);
}

#[test]
fn progress_counts_posts_when_everything_fails() {
    let posts = vec![post("a", &["u1", "u2"]), post("b", &["u3"]), post("c", &["u4"])];
    let replies = vec![
        vec![status(404), status(403)],
        vec![broken("dns failure")],
        vec![status(301)],
    ];
    let summary = fetch_all(&posts, replies).unwrap();
    assert_eq!(summary.progress, 3);
    assert!(summary.store.is_empty());
    assert_eq!(summary.log.len(), 4);
}

#[test]
fn no_posts_means_no_progress_and_an_empty_accumulator() {
    let posts: Vec<Post> = Vec::new();
    let summary = fetch_all(&posts, Vec::new()).unwrap();
    assert_eq!(summary.progress, 0);
    assert!(summary.store.is_empty());
    assert!(summary.log.is_empty());
}

#[test]
fn failed_urls_are_absent_and_fetched_urls_hold_the_exact_bytes() {
    let posts = vec![
        post("first", &["http://x/ok1", "http://x/gone", "http://x/ok2"]),
        post("second", &["http://x/down", "http://x/ok3"]),
    ];
    let replies = vec![
        vec![ok(&[1, 2, 3]), status(404), ok(&[])],
        vec![broken("connection reset"), ok(&[255; 20])],
    ];
    let summary = fetch_all(&posts, replies).unwrap();
    assert!(!summary.store.contains("http://x/gone"));
    assert!(!summary.store.contains("http://x/down"));
    assert_eq!(summary.store.get("http://x/gone"), None);
    assert_eq!(summary.store.get("http://x/ok1"), Some(&vec![1u8, 2, 3]));
    assert_eq!(summary.store.get("http://x/ok2"), Some(&Vec::<u8>::new()));
    assert_eq!(summary.store.get("http://x/ok3"), Some(&vec![255u8; 20]));
    assert_eq!(summary.store.len(), 3);
    assert_eq!(
        summary.log,
        vec![
            "Failed to download http://x/gone: HTTP status 404".to_string(),
            "Failed to download http://x/down: connection reset".to_string(),
        ]
    );
}

#[test]
fn body_of_a_refused_status_is_not_stored() {
    let posts = vec![post("a", &["http://x/moved"])];
    let replies = vec![vec![FetchReply::Response { status: 301, body: vec![1, 2, 3] }]];
    let summary = fetch_all(&posts, replies).unwrap();
    assert!(summary.store.is_empty());
    assert_eq!(
        summary.log,
        vec!["Failed to download http://x/moved: HTTP status 301".to_string()]
    );
}

#[test]
fn shared_url_has_one_entry_and_the_last_write_wins() {
    let posts = vec![
        post("first", &["http://x/shared", "http://x/own"]),
        post("second", &["http://x/shared"]),
    ];
    let replies = vec![vec![ok(&[1]), ok(&[7])], vec![ok(&[2, 2])]];
    let summary = fetch_all(&posts, replies).unwrap();
    assert_eq!(summary.store.len(), 2);
    assert_eq!(summary.store.get("http://x/shared"), Some(&vec![2u8, 2]));
    assert_eq!(summary.store.get("http://x/own"), Some(&vec![7u8]));
    let shared = summary
        .store
        .as_pairs()
        .iter()
        .filter(|pair| pair.0 == "http://x/shared")
        .count();
    assert_eq!(shared, 1);
    assert!(summary.log.is_empty());
    assert_eq!(summary.progress, 2);
}

#[test]
fn shared_url_within_one_post_has_one_entry() {
    let posts = vec![post("twice", &["u", "u", "u"])];
    let replies = vec![vec![ok(&[1]), ok(&[2]), ok(&[3])]];
    let summary = fetch_all(&posts, replies).unwrap();
    assert_eq!(summary.store.len(), 1);
    assert_eq!(summary.store.get("u"), Some(&vec![3u8]));
}

#[test]
fn shared_url_that_fails_later_keeps_the_earlier_payload() {
    let posts = vec![post("first", &["u"]), post("second", &["u"])];
    let replies = vec![vec![ok(&[1])], vec![status(503)]];
    let summary = fetch_all(&posts, replies).unwrap();
    assert_eq!(summary.store.len(), 1);
    assert_eq!(summary.store.get("u"), Some(&vec![1u8]));
    assert_eq!(summary.log, vec!["Failed to download u: HTTP status 503".to_string()]);
}

#[test]
fn run_refuses_replies_that_do_not_fit_the_posts() {
    let posts = vec![post("a", &["u1", "u2"]), post("b", &["u3"])];
    assert_eq!(
        fetch_all(&posts, vec![vec![ok(&[1]), ok(&[2])]]).err(),
        Some(StepError::ReplyCountMismatch)
    );
    assert_eq!(
        fetch_all(&posts, vec![vec![ok(&[1])], vec![ok(&[3])]]).err(),
        Some(StepError::ReplyCountMismatch)
    );
    assert_eq!(
        fetch_all(&posts, vec![vec![ok(&[1]), ok(&[2])], vec![]]).err(),
        Some(StepError::ReplyCountMismatch)
    );
    assert_eq!(
        fetch_all(&posts, vec![vec![ok(&[1]), ok(&[2])], vec![ok(&[3])], vec![]]).err(),
        Some(StepError::ReplyCountMismatch)
    );
}

#[test]
fn new_run_has_nothing_worked_off() {
    let posts = vec![post("a", &["u1"]), post("b", &["u2"])];
    let run = FetchRun::new(&posts);
    assert_eq!(run.total(), 2);
    assert_eq!(run.progress(), 0);
    assert!(!run.is_complete());
}

#[test]
fn run_over_no_posts_is_complete_at_once() {
    let posts: Vec<Post> = Vec::new();
    let run = FetchRun::new(&posts);
    assert_eq!(run.total(), 0);
    assert!(run.is_complete());
    assert!(run.finish().unwrap().is_empty());
}

#[test]
fn posts_complete_in_any_order() {
    let posts = vec![post("a", &["u1"]), post("b", &["u2", "u3"]), post("c", &[])];
    let mut run = FetchRun::new(&posts);

    assert_eq!(run.complete_post(2, vec![]), Ok(Vec::new()));
    assert_eq!(run.progress(), 1);
    assert!(!run.is_complete());

    assert_eq!(
        run.complete_post(1, vec![ok(&[2]), status(404)]),
        Ok(vec!["Failed to download u3: HTTP status 404".to_string()])
    );
    assert_eq!(run.progress(), 2);
    assert!(!run.is_complete());

    assert_eq!(run.complete_post(0, vec![ok(&[1])]), Ok(Vec::new()));
    assert_eq!(run.progress(), 3);
    assert!(run.is_complete());

    let store = run.finish().unwrap();
    assert_eq!(
        store.as_pairs(),
        &vec![("u2".to_string(), vec![2u8]), ("u1".to_string(), vec![1u8])]
    );
}

#[test]
fn later_completion_wins_a_shared_url() {
    let posts = vec![post("a", &["u"]), post("b", &["u"])];
    let mut run = FetchRun::new(&posts);
    run.complete_post(1, vec![ok(&[2])]).unwrap();
    run.complete_post(0, vec![ok(&[1])]).unwrap();
    let store = run.finish().unwrap();
    assert_eq!(store.len(), 1);
    assert_eq!(store.get("u"), Some(&vec![1u8]));
}

#[test]
fn step_for_an_unknown_post_is_refused() {
    let posts = vec![post("a", &["u1"])];
    let mut run = FetchRun::new(&posts);
    assert_eq!(run.complete_post(1, vec![ok(&[1])]), Err(StepError::UnknownPost));
    assert_eq!(run.complete_post(usize::MAX, vec![]), Err(StepError::UnknownPost));
    assert_eq!(run.progress(), 0);
}

#[test]
fn second_step_for_a_post_is_refused() {
    let posts = vec![post("a", &["u1"]), post("b", &["u2"])];
    let mut run = FetchRun::new(&posts);
    run.complete_post(0, vec![ok(&[1])]).unwrap();
    assert_eq!(run.complete_post(0, vec![ok(&[9])]), Err(StepError::AlreadyCompleted));
    assert_eq!(run.progress(), 1);
    run.complete_post(1, vec![ok(&[2])]).unwrap();
    let store = run.finish().unwrap();
    assert_eq!(store.get("u1"), Some(&vec![1u8]));
}

#[test]
fn step_with_the_wrong_number_of_replies_is_refused() {
    let posts = vec![post("a", &["u1", "u2"])];
    let mut run = FetchRun::new(&posts);
    assert_eq!(run.complete_post(0, vec![ok(&[1])]), Err(StepError::ReplyCountMismatch));
    assert_eq!(
        run.complete_post(0, vec![ok(&[1]), ok(&[2]), ok(&[3])]),
        Err(StepError::ReplyCountMismatch)
    );
    assert_eq!(run.progress(), 0);
    assert_eq!(run.complete_post(0, vec![ok(&[1]), ok(&[2])]), Ok(Vec::new()));
    assert_eq!(run.progress(), 1);
}

#[test]
fn unfinished_run_hands_out_nothing() {
    let posts = vec![post("a", &["u1"]), post("b", &["u2"])];
    let mut run = FetchRun::new(&posts);
    run.complete_post(0, vec![ok(&[1])]).unwrap();
    assert_eq!(run.finish().err(), Some(StepError::Unfinished));
}

#[test]
fn status_message_names_the_title() {
    assert_eq!(post("Holiday", &[]).status_message(), "Downloading image for: Holiday");
    assert_eq!(post("", &[]).status_message(), "Downloading image for: ");
}

#[test]
fn completion_message_is_fixed() {
    assert_eq!(completion_text(), "Image downloads complete!");
}

#[test]
fn stepwise_run_in_post_order_agrees_with_the_whole_run() {
    let posts = vec![
        post("a", &["u1", "u2"]),
        post("b", &[]),
        post("c", &["u2", "u3", "u1"]),
    ];
    let replies = || {
        vec![
            vec![ok(&[1]), status(500)],
            vec![],
            vec![ok(&[2]), broken("reset"), ok(&[3])],
        ]
    };
    let summary = fetch_all(&posts, replies()).unwrap();

    let mut run = FetchRun::new(&posts);
    let mut log = Vec::new();
    for (index, list) in replies().into_iter().enumerate() {
        log.extend(run.complete_post(index, list).unwrap());
        assert_eq!(run.progress(), index + 1);
    }
    let store = run.finish().unwrap();
    assert_eq!(store.as_pairs(), summary.store.as_pairs());
    assert_eq!(log, summary.log);
    assert_eq!(
        store.as_pairs(),
        &vec![("u1".to_string(), vec![3u8]), ("u2".to_string(), vec![2u8])]
    );
    assert_eq!(
        log,
        vec![
            "Failed to download u2: HTTP status 500".to_string(),
            "Failed to download u3: reset".to_string(),
        ]
    );
}
