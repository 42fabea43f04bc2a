use frogbot::dispatch::DispatchFault;
use frogbot::dispatch::DispatchStep;
use frogbot::dispatch::Invocation;
use frogbot::dispatch::dispatch;
use frogbot::random::RandomSource;
use frogbot::registry::CommandRegistry;
use frogbot::registry::ParamValue;

fn inv(command: &str, params: Vec<(&str, ParamValue)>, invoker: &str) -> Invocation {
    Invocation {
        command: command.to_string(),
        params: params.into_iter().map(|(n, v)| (n.to_string(), v)).collect(),
        invoker_name: invoker.to_string(),
    }
}

fn done_text(step: DispatchStep) -> String {
    match step {
        DispatchStep::Done(reply) => reply.text,
        DispatchStep::AwaitPhoto(_) => panic!("expected a finished reply"),
    }
}

#[test]
fn greet_replies_world() {
    let reg = CommandRegistry::new();
    let mut rng = RandomSource::system();
    let step = dispatch(&reg, &inv("greet", vec![], "alice"), &mut rng).unwrap();
    assert_eq!(done_text(step), "world!");
}

#[test]
fn unknown_command_is_a_fault() {
    let reg = CommandRegistry::new();
    let mut rng = RandomSource::system();
    let err = dispatch(&reg, &inv("dance", vec![], "alice"), &mut rng).unwrap_err();
    assert_eq!(err, DispatchFault::UnknownCommand);
}

#[test]
fn roll_through_dispatcher() {
    let reg = CommandRegistry::new();
    let mut rng = RandomSource::scripted(vec![1, 2, 3]);
    let params = vec![
        ("sides", ParamValue::Int(20)),
        ("count", ParamValue::Int(3)),
        ("modifier", ParamValue::Int(5)),
    ];
    let step = dispatch(&reg, &inv("roll", params, "bob"), &mut rng).unwrap();
    assert_eq!(
        done_text(step),
        "bob rolled 3d20 with a modifier of 5. The rolls were 1, 2, 3. The total is 11."
    );
}

#[test]
fn unregistered_parameter_is_replied_not_run() {
    let reg = CommandRegistry::new();
    let mut rng = RandomSource::scripted(vec![6]);
    let step = dispatch(
        &reg,
        &inv("greet", vec![("volume", ParamValue::Int(11))], "alice"),
        &mut rng,
    )
    .unwrap();
    assert_eq!(done_text(step), "Invalid parameter: volume");
}

#[test]
fn out_of_range_count_is_replied_not_rolled() {
    let reg = CommandRegistry::new();
    let mut rng = RandomSource::scripted(vec![6]);
    let params = vec![
        ("sides", ParamValue::Int(6)),
        ("count", ParamValue::Int(0)),
        ("modifier", ParamValue::Int(0)),
    ];
    let step = dispatch(&reg, &inv("roll", params, "alice"), &mut rng).unwrap();
    assert_eq!(done_text(step), "Invalid parameter: count (allowed: 1 to 100)");
    // No die was drawn: the script still starts at its head.
    let ok_params = vec![
        ("sides", ParamValue::Int(6)),
        ("count", ParamValue::Int(1)),
        ("modifier", ParamValue::Int(0)),
    ];
    let step = dispatch(&reg, &inv("roll", ok_params, "alice"), &mut rng).unwrap();
    assert_eq!(
        done_text(step),
        "alice rolled a 6 sided die with a modifier of 0. The roll is 6. The total is 6."
    );
}

#[test]
fn unsupported_sides_is_replied() {
    let reg = CommandRegistry::new();
    let mut rng = RandomSource::system();
    let params = vec![
        ("sides", ParamValue::Int(7)),
        ("count", ParamValue::Int(1)),
        ("modifier", ParamValue::Int(0)),
    ];
    let step = dispatch(&reg, &inv("roll", params, "alice"), &mut rng).unwrap();
    assert_eq!(
        done_text(step),
        "Invalid parameter: sides (allowed: 4, 6, 8, 10, 12, 20, 100)"
    );
}

#[test]
fn missing_parameter_is_replied() {
    let reg = CommandRegistry::new();
    let mut rng = RandomSource::system();
    let params = vec![("sides", ParamValue::Int(6)), ("modifier", ParamValue::Int(0))];
    let step = dispatch(&reg, &inv("roll", params, "alice"), &mut rng).unwrap();
    assert_eq!(done_text(step), "Invalid parameter: count (allowed: 1 to 100)");
}

#[test]
fn wrongly_typed_parameter_is_replied() {
    let reg = CommandRegistry::new();
    let mut rng = RandomSource::system();
    let params = vec![
        ("sides", ParamValue::Text("six".to_string())),
        ("count", ParamValue::Int(1)),
        ("modifier", ParamValue::Int(0)),
    ];
    let step = dispatch(&reg, &inv("roll", params, "alice"), &mut rng).unwrap();
    assert_eq!(
        done_text(step),
        "Invalid parameter: sides (allowed: 4, 6, 8, 10, 12, 20, 100)"
    );
}

#[test]
fn photo_hands_back_the_query() {
    let reg = CommandRegistry::new();
    let mut rng = RandomSource::system();
    let step = dispatch(&reg, &inv("photo", vec![], "alice"), &mut rng).unwrap();
    match step {
        DispatchStep::AwaitPhoto(query) => assert_eq!(query, "frog"),
        DispatchStep::Done(_) => panic!("expected a pending photo lookup"),
    }
}

#[test]
fn registry_lists_the_three_commands() {
    let reg = CommandRegistry::new();
    assert!(reg.lookup("greet").is_some());
    assert!(reg.lookup("roll").is_some());
    assert!(reg.lookup("photo").is_some());
    assert!(reg.lookup("frobnicate").is_none());
    let roll_entry = reg.lookup("roll").unwrap();
    assert_eq!(roll_entry.schema.len(), 3);
    assert_eq!(roll_entry.schema[0].name, "sides");
    assert_eq!(roll_entry.schema[1].name, "count");
    assert_eq!(roll_entry.schema[2].name, "modifier");
}
