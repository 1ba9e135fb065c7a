use vertex_dtl::{batch, canonical_bytes, direct, routed, snapshot, CanonicalJson, ScenarioReport};

fn hex_of<T: CanonicalJson>(value: &T) -> String {
    let bytes = canonical_bytes(value).expect("el valor debe codificarse");
    let text = String::from_utf8(bytes).expect("la codificacion debe ser utf-8");
    assert!(text.starts_with('"') && text.ends_with('"'));
    text[1..text.len() - 1].to_owned()
}

fn assert_hex32<T: CanonicalJson>(value: &T) {
    let text = hex_of(value);
    assert_eq!(text.len(), 64);
    assert!(text.chars().all(|ch| ch.is_ascii_hexdigit()));
}

fn assert_common(payload: &ScenarioReport, name: &str) {
    assert_eq!(payload.scenario, name);
    assert_eq!(payload.network_id, 4_204);
    assert_eq!(payload.total_supply.units(), 5_000);
    assert_eq!(payload.conservation_ok, true);
    assert_hex32(&payload.asset);
    assert_hex32(&payload.state_digest);
}

#[test]
fn escenario_directo_liquida_saldos_esperados() {
    let payload = direct().expect("el escenario direct debe ejecutarse");
    assert_common(&payload, "direct");
    assert_hex32(&payload.ticket_id.expect("ticket_id"));
    assert_hex32(&payload.open_tx.expect("open_tx"));
    assert_hex32(&payload.release_tx.expect("release_tx"));
    assert_eq!(payload.balances.payer.units(), 4_250);
    assert_eq!(payload.balances.beneficiary.units(), 750);
    assert_eq!(payload.balances.operator.units(), 0);
    assert_eq!(payload.balances.integrator.units(), 0);
    assert_eq!(payload.balances.reserve.units(), 0);
}

#[test]
fn escenario_enrutado_aplica_importes_de_ruta() {
    let payload = routed().expect("el escenario routed debe ejecutarse");
    assert_common(&payload, "routed");
    assert_hex32(&payload.ticket_id.expect("ticket_id"));
    assert_eq!(payload.balances.payer.units(), 4_000);
    assert_eq!(payload.balances.beneficiary.units(), 988);
    assert_eq!(payload.balances.operator.units(), 9);
    assert_eq!(payload.balances.integrator.units(), 3);
    assert_eq!(payload.balances.reserve.units(), 0);
}

#[test]
fn escenario_batch_acumula_varias_liquidaciones() {
    let payload = batch().expect("el escenario batch debe ejecutarse");
    assert_common(&payload, "batch");
    assert_hex32(&payload.ticket_id.expect("ticket_id"));
    assert_eq!(payload.balances.payer.units(), 3_900);
    assert_eq!(payload.balances.beneficiary.units(), 1_087);
    assert_eq!(payload.balances.operator.units(), 4);
    assert_eq!(payload.balances.integrator.units(), 3);
    assert_eq!(payload.balances.reserve.units(), 6);
}

#[test]
fn escenario_snapshot_no_tiene_actividad_de_ticket() {
    let payload = snapshot().expect("el escenario snapshot debe ejecutarse");
    assert_common(&payload, "snapshot");
    assert!(payload.ticket_id.is_none());
    assert!(payload.open_tx.is_none());
    assert!(payload.release_tx.is_none());
    assert_eq!(payload.balances.payer.units(), 5_000);
    assert_eq!(payload.balances.beneficiary.units(), 0);
    assert_eq!(payload.balances.operator.units(), 0);
    assert_eq!(payload.balances.integrator.units(), 0);
    assert_eq!(payload.balances.reserve.units(), 0);
}

#[test]
fn digests_de_escenarios_son_deterministas_y_distintos() {
    let first = routed().expect("routed");
    let second = routed().expect("routed");
    let direct = direct().expect("direct");

    assert_eq!(first.state_digest, second.state_digest);
    assert_ne!(first.state_digest, direct.state_digest);
}
