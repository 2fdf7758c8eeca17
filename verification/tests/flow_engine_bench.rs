use cycle_orc::memory::MemoryRouter;
use std::time::Instant;

#[test]
fn bench_memory_router_lookup_and_write_throughput() {
    let router = MemoryRouter::new();
    let stream_name = "bench_stream";
    let stream = router.get_or_create_stream(stream_name);

    let iterations = 100_000;
    let payload = br#"{"symbol":"BTCUSDT","price":50000.0,"qty":1.5}"#;

    let start = Instant::now();
    for _ in 0..iterations {
        let mut guard = stream.data.write().unwrap();
        guard.clear();
        guard.extend_from_slice(payload);
    }
    let elapsed = start.elapsed();

    let nanos_per_op = elapsed.as_nanos() as f64 / iterations as f64;
    let ops_per_sec = iterations as f64 / elapsed.as_secs_f64();

    println!("\n========================================================");
    println!("⚡ BENCHMARK: MemoryRouter Lookup & Stream Write");
    println!("========================================================");
    println!("Toplam İşlem Sayısı   : {}", iterations);
    println!("Toplam Geçen Süre     : {:?}", elapsed);
    println!("İşlem Başına Gecikme  : {:.2} ns/op", nanos_per_op);
    println!("Bant Genişliği        : {:.2} op/sn", ops_per_sec);
    println!("========================================================\n");

    assert!(ops_per_sec > 10_000.0, "Throughput should be higher than 10k ops/sec");
}
