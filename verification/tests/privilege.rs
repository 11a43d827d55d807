use bartender::privilege::pledge_promise;

#[test]
fn pledge_answers_the_same_every_time() {
    // The promises asked for are always the same, so a system that agreed
    // once agrees again, and one without pledge(2) never does.
    let first = pledge_promise();
    let second = pledge_promise();
    assert_eq!(first, second);
}
