use callog_bot::timm::calls::{get_new_calls, PhoneCall};
use chrono::Utc;

#[test]
fn timm_test_no_calls() {
    assert_eq!(get_new_calls(&None, Vec::new()), None);
}

#[test]
fn timm_test_no_last_call() {
    let new_call: PhoneCall = PhoneCall {
        who: "new call".to_string(),
        when: Utc::now().timestamp(),
    };

    let calls: Vec<PhoneCall> = vec![new_call.clone()];

    assert_eq!(get_new_calls(&None, calls.clone()), Some(calls));
}

#[test]
fn timm_test_no_new_calls() {
    let last_call: PhoneCall = PhoneCall {
        who: "last call".to_string(),
        when: Utc::now().timestamp(),
    };

    assert_eq!(get_new_calls(&Some(last_call), Vec::new()), None);
}

#[test]
fn timm_test_last_call_not_found() {
    let last_call: PhoneCall = PhoneCall {
        who: "last call".to_string(),
        when: Utc::now().timestamp(),
    };

    let new_call_1: PhoneCall = PhoneCall {
        who: "new call 1".to_string(),
        when: Utc::now().timestamp(),
    };
    let new_call_2: PhoneCall = PhoneCall {
        who: "new call 2".to_string(),
        when: Utc::now().timestamp(),
    };

    let calls: Vec<PhoneCall> = vec![new_call_1.clone(), new_call_2.clone()];

    assert_eq!(get_new_calls(&Some(last_call), calls.clone()), Some(calls));
}

#[test]
fn timm_test_last_call_is_last_call() {
    let last_call: PhoneCall = PhoneCall {
        who: "last call".to_string(),
        when: Utc::now().timestamp(),
    };
    let old_call: PhoneCall = PhoneCall {
        who: "old call".to_string(),
        when: Utc::now().timestamp(),
    };

    let calls: Vec<PhoneCall> = vec![last_call.clone(), old_call.clone()];

    assert_eq!(get_new_calls(&Some(last_call), calls.clone()), None);
}

#[test]
fn timm_test_last_call_is_recent_call() {
    let last_call: PhoneCall = PhoneCall {
        who: "last call".to_string(),
        when: Utc::now().timestamp(),
    };
    let new_call_1: PhoneCall = PhoneCall {
        who: "new call 1".to_string(),
        when: Utc::now().timestamp(),
    };
    let new_call_2: PhoneCall = PhoneCall {
        who: "new call 2".to_string(),
        when: Utc::now().timestamp(),
    };
    let old_call_1: PhoneCall = PhoneCall {
        who: "old call 1".to_string(),
        when: Utc::now().timestamp(),
    };
    let old_call_2: PhoneCall = PhoneCall {
        who: "old call 2".to_string(),
        when: Utc::now().timestamp(),
    };

    let calls: Vec<PhoneCall> = vec![
        new_call_1.clone(),
        new_call_2.clone(),
        last_call.clone(),
        old_call_1.clone(),
        old_call_2.clone(),
    ];

    assert_eq!(
        get_new_calls(&Some(last_call), calls.clone()),
        Some(vec![new_call_1.clone(), new_call_2.clone()])
    );
}

#[test]
fn timm_test_last_call_is_oldest_call() {
    let last_call: PhoneCall = PhoneCall {
        who: "last call".to_string(),
        when: Utc::now().timestamp(),
    };
    let new_call: PhoneCall = PhoneCall {
        who: "new call".to_string(),
        when: Utc::now().timestamp(),
    };

    let calls: Vec<PhoneCall> = vec![new_call.clone(), last_call.clone()];

    assert_eq!(
        get_new_calls(&Some(last_call.clone()), calls),
        Some(vec![new_call.clone()])
    );
}

#[test]
fn calls_test_no_calls() {
    assert_eq!(get_new_calls(&None, Vec::new()), None);
}

#[test]
fn calls_test_no_last_call() {
    let new_call: PhoneCall = PhoneCall {
        who: "new call".to_string(),
        when: Utc::now().timestamp(),
    };

    let calls: Vec<PhoneCall> = vec![new_call.clone()];

    assert_eq!(get_new_calls(&None, calls.clone()), Some(calls));
}

#[test]
fn test_no_last_return_recent_calls() {
    let new_call: PhoneCall = PhoneCall {
        who: "new call".to_string(),
        when: Utc::now().timestamp(),
    };
    let old_call: PhoneCall = PhoneCall {
        who: "old call".to_string(),
        when: Utc::now().timestamp() - 60 * 31,
    };

    let calls: Vec<PhoneCall> = vec![new_call.clone(), old_call];

    assert_eq!(get_new_calls(&None, calls), Some(vec![new_call]));
}

#[test]
fn calls_test_no_new_calls() {
    let last_call: PhoneCall = PhoneCall {
        who: "last call".to_string(),
        when: Utc::now().timestamp(),
    };

    assert_eq!(get_new_calls(&Some(last_call), Vec::new()), None);
}

#[test]
fn calls_test_last_call_not_found() {
    let last_call: PhoneCall = PhoneCall {
        who: "last call".to_string(),
        when: Utc::now().timestamp(),
    };

    let new_call_1: PhoneCall = PhoneCall {
        who: "new call 1".to_string(),
        when: Utc::now().timestamp(),
    };
    let new_call_2: PhoneCall = PhoneCall {
        who: "new call 2".to_string(),
        when: Utc::now().timestamp(),
    };

    let calls: Vec<PhoneCall> = vec![new_call_1.clone(), new_call_2.clone()];

    assert_eq!(get_new_calls(&Some(last_call), calls.clone()), Some(calls));
}

#[test]
fn calls_test_last_call_is_last_call() {
    let last_call: PhoneCall = PhoneCall {
        who: "last call".to_string(),
        when: Utc::now().timestamp(),
    };
    let old_call: PhoneCall = PhoneCall {
        who: "old call".to_string(),
        when: Utc::now().timestamp(),
    };

    let calls: Vec<PhoneCall> = vec![last_call.clone(), old_call.clone()];

    assert_eq!(get_new_calls(&Some(last_call), calls.clone()), None);
}

#[test]
fn calls_test_last_call_is_recent_call() {
    let last_call: PhoneCall = PhoneCall {
        who: "last call".to_string(),
        when: Utc::now().timestamp(),
    };
    let new_call_1: PhoneCall = PhoneCall {
        who: "new call 1".to_string(),
        when: Utc::now().timestamp(),
    };
    let new_call_2: PhoneCall = PhoneCall {
        who: "new call 2".to_string(),
        when: Utc::now().timestamp(),
    };
    let old_call_1: PhoneCall = PhoneCall {
        who: "old call 1".to_string(),
        when: Utc::now().timestamp(),
    };
    let old_call_2: PhoneCall = PhoneCall {
        who: "old call 2".to_string(),
        when: Utc::now().timestamp(),
    };

    let calls: Vec<PhoneCall> = vec![
        new_call_1.clone(),
        new_call_2.clone(),
        last_call.clone(),
        old_call_1.clone(),
        old_call_2.clone(),
    ];

    assert_eq!(
        get_new_calls(&Some(last_call), calls.clone()),
        Some(vec![new_call_1.clone(), new_call_2.clone()])
    );
}

#[test]
fn calls_test_last_call_is_oldest_call() {
    let last_call: PhoneCall = PhoneCall {
        who: "last call".to_string(),
        when: Utc::now().timestamp(),
    };
    let new_call: PhoneCall = PhoneCall {
        who: "new call".to_string(),
        when: Utc::now().timestamp(),
    };

    let calls: Vec<PhoneCall> = vec![new_call.clone(), last_call.clone()];

    assert_eq!(
        get_new_calls(&Some(last_call.clone()), calls),
        Some(vec![new_call.clone()])
    );
}
