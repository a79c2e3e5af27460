use roster_messenger::dispatch::{
    message_form, Dispatcher, MessageTemplate, SubmitDisposition, SubmitEvent,
};
use roster_messenger::errors::{DispatchError, DispatchOutcome};
use roster_messenger::queue::DispatchQueue;
use roster_messenger::scrape::{ScrapeJob, ScrapeStep};
use roster_messenger::Config;

fn roster(names: &[&str]) -> Vec<String> {
    names.iter().map(|n| n.to_string()).collect()
}

fn landed_fine() -> SubmitEvent {
    SubmitEvent::Landed { session_lost: false }
}

fn landed_lost() -> SubmitEvent {
    SubmitEvent::Landed { session_lost: true }
}

#[test]
fn message_form_carries_the_template() {
    let template = MessageTemplate { subject: "hello".to_string(), body: "hi there".to_string() };
    let form = message_form(&template, &"alice".to_string());
    assert_eq!(form.len(), 3);
    assert_eq!(form[0], ("an".to_string(), "alice".to_string()));
    assert_eq!(form[1], ("be".to_string(), "hello".to_string()));
    assert_eq!(form[2], ("message".to_string(), "hi there".to_string()));
}

#[test]
fn config_supplies_credentials_and_template() {
    let config = Config {
        server: "https://s.example".to_string(),
        login: "me".to_string(),
        pass: "pw".to_string(),
        delay: 0,
        subject: "sub".to_string(),
        message: "msg".to_string(),
    };
    let creds = config.credentials();
    assert_eq!(creds.server, "https://s.example");
    assert_eq!(creds.login, "me");
    assert_eq!(creds.password, "pw");
    let template = config.template();
    assert_eq!(template.subject, "sub");
    assert_eq!(template.body, "msg");
}

#[test]
fn session_loss_gets_one_relogin_and_one_retry() {
    let mut d = Dispatcher::new(DispatchQueue::from_roster(roster(&["bob"])), 0);
    assert_eq!(d.begin_next().unwrap(), "bob");
    assert_eq!(d.on_submit(landed_lost()).unwrap(), SubmitDisposition::ReloginNeeded);
    assert_eq!(d.on_relogin(true).unwrap(), "bob");
    assert_eq!(
        d.on_submit(landed_fine()).unwrap(),
        SubmitDisposition::Accepted(DispatchOutcome::SentAfterReauth)
    );
}

#[test]
fn second_consecutive_session_loss_is_fatal() {
    let mut d = Dispatcher::new(DispatchQueue::from_roster(roster(&["bob"])), 0);
    assert_eq!(d.begin_next().unwrap(), "bob");
    assert_eq!(d.on_submit(landed_lost()).unwrap(), SubmitDisposition::ReloginNeeded);
    assert_eq!(d.on_relogin(true).unwrap(), "bob");
    assert_eq!(d.on_submit(landed_lost()).unwrap_err(), DispatchError::SessionLostTwice);
}

#[test]
fn failed_relogin_aborts_the_run() {
    let mut d = Dispatcher::new(DispatchQueue::from_roster(roster(&["bob"])), 0);
    assert_eq!(d.begin_next().unwrap(), "bob");
    assert_eq!(d.on_submit(landed_lost()).unwrap(), SubmitDisposition::ReloginNeeded);
    assert_eq!(d.on_relogin(false).unwrap_err(), DispatchError::Failed);
}

#[test]
fn transport_error_aborts_the_run() {
    let mut d = Dispatcher::new(DispatchQueue::from_roster(roster(&["bob"])), 0);
    assert_eq!(d.begin_next().unwrap(), "bob");
    assert_eq!(d.on_submit(SubmitEvent::TransportFailed).unwrap_err(), DispatchError::Transport);
}

#[test]
fn restart_after_k_sends_resumes_with_the_rest() {
    let names = roster(&["a", "b", "c", "d"]);
    let mut d = Dispatcher::new(DispatchQueue::from_roster(names), 0);
    let mut store = d.persist_text();
    for expected in ["d", "c"] {
        let recipient = d.begin_next().unwrap();
        assert_eq!(recipient, expected);
        assert_eq!(
            d.on_submit(landed_fine()).unwrap(),
            SubmitDisposition::Accepted(DispatchOutcome::Sent)
        );
        store = d.persist_text();
    }
    let reloaded = DispatchQueue::load(Some(store.as_str())).unwrap();
    assert_eq!(reloaded.len(), 2);
    assert_eq!(reloaded.players(), &roster(&["a", "b"]));
    let mut d2 = Dispatcher::new(reloaded, 0);
    let mut sent: Vec<String> = Vec::new();
    while let Some(recipient) = d2.begin_next() {
        assert_eq!(
            d2.on_submit(landed_fine()).unwrap(),
            SubmitDisposition::Accepted(DispatchOutcome::Sent)
        );
        sent.push(recipient);
    }
    assert_eq!(sent, roster(&["b", "a"]));
}

#[test]
fn end_to_end_scrape_then_dispatch() {
    let pages: Vec<Vec<Option<String>>> = vec![
        vec![Some("Player".to_string()), Some("alice".to_string()), Some("bob".to_string())],
        vec![Some("Player".to_string()), Some("carol".to_string())],
    ];
    let mut job = ScrapeJob::begin(1, 3);
    loop {
        match job.next_step() {
            ScrapeStep::Fetch(p) => {
                job.on_page_rows(&pages[(p - 1) as usize]).unwrap();
            },
            ScrapeStep::Done => break,
        }
    }
    let scraped = job.into_roster();
    assert_eq!(scraped, roster(&["alice", "bob", "carol"]));

    let queue = DispatchQueue::from_roster(scraped);
    let mut store = queue.save();
    let mut d = Dispatcher::new(queue, 0);
    assert_eq!(d.delay_secs, 0);
    let mut sent: Vec<String> = Vec::new();
    let mut outcomes: Vec<DispatchOutcome> = Vec::new();
    while let Some(recipient) = d.begin_next() {
        match d.on_submit(landed_fine()).unwrap() {
            SubmitDisposition::Accepted(outcome) => outcomes.push(outcome),
            SubmitDisposition::ReloginNeeded => panic!("no session loss was mocked"),
        }
        store = d.persist_text();
        sent.push(recipient);
    }
    assert_eq!(sent, roster(&["carol", "bob", "alice"]));
    assert_eq!(store, "[]");
    assert_eq!(outcomes, vec![DispatchOutcome::Sent, DispatchOutcome::Sent, DispatchOutcome::Sent]);
    let emptied = DispatchQueue::load(Some(store.as_str())).unwrap();
    assert!(emptied.is_empty());
}

#[test]
fn no_store_means_nothing_to_send() {
    let queue = DispatchQueue::load(None).unwrap();
    assert!(queue.is_empty());
    let mut d = Dispatcher::new(queue, 0);
    assert_eq!(d.pending(), 0);
    assert!(d.begin_next().is_none());
}
