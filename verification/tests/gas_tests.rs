use sui_crypto::gas::{GasMeter, SimpleInstruction, UnmeteredGasMeter};

#[test]
fn unmetered_meter_never_runs_out() {
    let mut meter = UnmeteredGasMeter;
    assert_eq!(meter.remaining_gas(), u64::MAX);
    for instr in [
        SimpleInstruction::Nop,
        SimpleInstruction::Ret,
        SimpleInstruction::Add,
        SimpleInstruction::Abort,
        SimpleInstruction::CastU256,
    ] {
        assert_eq!(meter.charge_simple_instr(instr), Ok(()));
    }
    assert_eq!(meter.charge_ld_const(0), Ok(()));
    assert_eq!(meter.charge_ld_const(u64::MAX), Ok(()));
    assert_eq!(meter.remaining_gas(), u64::MAX);
}

#[test]
fn instructions_compare_by_kind() {
    assert_eq!(SimpleInstruction::LdU8, SimpleInstruction::LdU8);
    assert_ne!(SimpleInstruction::LdU8, SimpleInstruction::LdU16);
    let copy = SimpleInstruction::Shl;
    assert_eq!(copy, SimpleInstruction::Shl);
}
