use asol_naki::scoring::{weights, FlagSeverity, StorageWeights};

#[test]
fn weights_sum_to_one() {
    // Each category's share is its weight over the total; the shares sum to one.
    let w = weights();
    let total = w.total() as f64;
    let sum = w.storage as f64 / total
        + w.cpu_gpu_sanity as f64 / total
        + w.battery as f64 / total
        + w.display as f64 / total
        + w.ports_connectivity as f64 / total;
    assert!((sum - 1.0).abs() < 1e-9);
}

#[test]
fn plan_weights_are_the_documented_percentages() {
    let w = weights();
    assert_eq!(
        w,
        StorageWeights {
            storage: 25,
            cpu_gpu_sanity: 25,
            battery: 20,
            display: 15,
            ports_connectivity: 10
        }
    );
    assert_eq!(w.total(), 95);
}

#[test]
fn weight_total_of_custom_weights() {
    let w = StorageWeights {
        storage: 1,
        cpu_gpu_sanity: 2,
        battery: 3,
        display: 4,
        ports_connectivity: u32::MAX,
    };
    assert_eq!(w.total(), 10 + u32::MAX as u64);
}

#[test]
fn severities_are_ordered() {
    assert!(FlagSeverity::Info < FlagSeverity::Warning);
    assert!(FlagSeverity::Warning < FlagSeverity::Critical);
}
