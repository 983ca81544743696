use rust_network_monitor::counter::SharedCounter;
use rust_network_monitor::engine::RatePipeline;

#[test]
fn a_new_counter_reads_zero() {
    let counter = SharedCounter::new();
    assert_eq!(counter.read(), 0);
}

#[test]
fn increments_add_up() {
    let counter = SharedCounter::new();
    counter.increment(1000);
    assert_eq!(counter.read(), 1000);
    counter.increment(0);
    counter.increment(24);
    assert_eq!(counter.read(), 1024);
}

#[test]
fn a_clone_is_a_handle_on_the_same_counter() {
    let producer = SharedCounter::new();
    let sampler = producer.clone();
    producer.increment(60);
    producer.increment(1440);
    assert_eq!(sampler.read(), 1500);
    assert_eq!(producer.read(), 1500);
}

#[test]
fn a_pipeline_samples_what_the_counter_holds() {
    let counter = SharedCounter::new();
    let mut pipeline = RatePipeline::new(counter.read(), 0, 5, 60);
    counter.increment(400);
    counter.increment(600);
    assert_eq!(pipeline.sample_counter(&counter, 1_000_000_000), 1000);
    counter.increment(3000);
    assert_eq!(pipeline.sample_counter(&counter, 2_000_000_000), 2000);
    assert_eq!(pipeline.history(), vec![1000, 2000]);
    assert_eq!(counter.read(), 4000);
}
