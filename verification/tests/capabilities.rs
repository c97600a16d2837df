use polish::capabilities::leakage::scan_html_for_leakage;
use polish::capabilities::matrix::{CapabilityMatrix, CapabilityRow};
use polish::capabilities::surface::{Surface, SurfacePolicy};

#[test]
fn detects_leakage() {
    let matrix = CapabilityMatrix::new().add_row(CapabilityRow::new("transfer").add(
        "debug_stack",
        "internal_error",
        SurfacePolicy::new(Surface::NeverUi, "debug_stack", "security leakage forbidden"),
    ));
    let html = "<div>debug_stack: something</div>";
    let report = scan_html_for_leakage(html, &matrix);
    assert!(!report.is_clean());
}

#[test]
fn leakage_clean_html_passes() {
    let matrix = CapabilityMatrix::new().add_row(CapabilityRow::new("transfer").add(
        "debug_stack",
        "internal_error",
        SurfacePolicy::new(Surface::NeverUi, "debug_stack", "forbidden"),
    ));
    let html = "<div>You receive: 100 USDC</div>";
    let report = scan_html_for_leakage(html, &matrix);
    assert!(report.is_clean());
}
