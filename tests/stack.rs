use gerrymander::{StateMachine, Transition, TransitionError, TransitionOutcome};

#[test]
fn testing() {
    let mut machine = StateMachine::<&str>::new("bottom");
    assert_eq!(*machine.active(), "bottom");

    let res = machine.apply(Transition::Push("1"));
    assert_eq!(res, Ok(TransitionOutcome::Pushed));

    let res = machine.apply(Transition::Push("2"));
    assert_eq!(res, Ok(TransitionOutcome::Pushed));

    let res = machine.apply(Transition::Swap("3"));
    assert_eq!(res, Ok(TransitionOutcome::SwappedIn(vec!["2"], 0)));

    let res = machine.apply(Transition::Pop);
    assert_eq!(res, Ok(TransitionOutcome::Revealed(vec!["3"])));

    let res = machine.apply(Transition::PopNAndPush(0, vec!["10", "11", "12", "13"]));
    assert_eq!(res, Ok(TransitionOutcome::Pushed));
    assert_eq!(*machine.active(), "13");

    // this transition would leave the machine empty if it pushed nothing
    let res = machine.apply(Transition::PopNAndPush(6, vec!["a", "b", "c"]));
    assert_eq!(
        res,
        Ok(TransitionOutcome::SwappedIn(vec!["bottom", "1", "10", "11", "12", "13"], 2))
    );
    assert_eq!(machine.get_stack(), &["a", "b", "c"]);

    let res = machine.apply(Transition::PopNAndPush(100, vec![]));
    assert_eq!(
        res,
        Err(TransitionError::PoppedTooMany {
            popcnt: 100,
            // only 2 of 3 may go when nothing replaces them
            available: 2
        })
    );
    // an error leaves the stack alone
    assert_eq!(machine.get_stack(), &["a", "b", "c"]);
}
