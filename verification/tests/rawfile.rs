use substrate::rawfile::{variable, variables, RawfileError};

const VARIABLE: &str = " 0\tv(xdut.vdd)\tvoltage\r\n";

const VARIABLES: &str = r###"Variables:
	0	v(xdut.vdd)	voltage
	1	v(xdut.out)	voltage
	2	i(v.xdut.vdd)	current

"###;

#[test]
fn test_variables() {
    let (_, vars) = variables(VARIABLES.as_bytes()).unwrap();
    println!("{vars:?}");
    assert_eq!(vars.len(), 3);
}

#[test]
fn test_variable() {
    let (_, var) = variable(VARIABLE.as_bytes()).unwrap();
    println!("{var:?}");
    assert_eq!(var.idx, 0);
}

#[test]
fn variable_fields_and_rest() {
    let (rest, var) = variable(b"12 i(v1) current\nnext").unwrap();
    assert_eq!(var.idx, 12);
    assert_eq!(var.name, "i(v1)");
    assert_eq!(var.unit, "current");
    assert_eq!(rest, b"next");
}

#[test]
fn variables_stop_at_first_other_line() {
    let (rest, vars) = variables(VARIABLES.as_bytes()).unwrap();
    assert_eq!(vars[1].name, "v(xdut.out)");
    assert_eq!(vars[2].unit, "current");
    assert_eq!(vars[2].idx, 2);
    assert_eq!(rest, b"\n");
}

#[test]
fn variable_rejects_malformed_lines() {
    assert_eq!(variable(b"x v(a) voltage\n").unwrap_err(), RawfileError::Mismatch);
    assert_eq!(variable(b"0 v(a)\n").unwrap_err(), RawfileError::Mismatch);
    assert_eq!(variable(b"0 v(a) voltage").unwrap_err(), RawfileError::Mismatch);
    assert_eq!(variable(b"99999999999999999999999 v(a) voltage\n").unwrap_err(), RawfileError::Mismatch);
}

#[test]
fn variables_needs_header() {
    assert_eq!(variables(b"Values:\n").unwrap_err(), RawfileError::Mismatch);
    let (rest, vars) = variables(b"Variables: \r\n").unwrap();
    assert!(vars.is_empty());
    assert!(rest.is_empty());
}
