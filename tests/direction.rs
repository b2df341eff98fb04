use black_scholes_option_pricer::direction::OptionDir;

#[test]
fn call_selects_first_variant() {
    assert_eq!(OptionDir::CALL.select("call", "put"), "call");
}

#[test]
fn put_selects_second_variant() {
    assert_eq!(OptionDir::PUT.select("call", "put"), "put");
}

fn double(x: i32) -> i32 {
    2 * x
}

fn negate(x: i32) -> i32 {
    -x
}

#[test]
fn select_routes_functions() {
    let call: fn(i32) -> i32 = double;
    let put: fn(i32) -> i32 = negate;
    assert_eq!(OptionDir::CALL.select(call, put)(21), 42);
    assert_eq!(OptionDir::PUT.select(call, put)(21), -21);
}

#[test]
fn directions_compare_by_variant() {
    assert_eq!(OptionDir::CALL, OptionDir::CALL);
    assert_ne!(OptionDir::CALL, OptionDir::PUT);
}
