use sysops_agent::config::StorageConfig;
use sysops_agent::ring::RingBuffer;
use sysops_agent::storage::Storage;
use sysops_agent::types::{Label, LabelList, MetricId, MetricSample};

fn sample(metric: MetricId, ts: i64, value: i64) -> MetricSample {
    MetricSample::unlabelled(ts, metric, value)
}

fn store(capacity: u32) -> Storage {
    let mut config = StorageConfig::default();
    config.ring_buffer_size = capacity;
    Storage::new(&config)
}

#[test]
fn ring_buffer_wrap_keeps_last_three() {
    let mut s = store(3);
    for v in 1..=5 {
        s.insert(sample(MetricId::CpuUsage, v, v * 1000));
    }
    let values: Vec<i64> = s.recent(MetricId::CpuUsage, 3).iter().map(|x| x.value).collect();
    assert_eq!(values, vec![3000, 4000, 5000]);
    assert_eq!(s.latest(MetricId::CpuUsage).unwrap().value, 5000);
}

#[test]
fn length_is_min_of_inserts_and_capacity() {
    let mut b = RingBuffer::new(4);
    for n in 1..=10i64 {
        b.push(sample(MetricId::MemUsage, n, n));
        assert_eq!(b.len() as i64, n.min(4));
        assert_eq!(b.latest().unwrap().value, n);
    }
    assert_eq!(b.capacity(), 4);
}

#[test]
fn recent_is_oldest_first_and_ends_with_latest() {
    let mut b = RingBuffer::new(5);
    for n in 1..=7i64 {
        b.push(sample(MetricId::MemUsage, n, n * 10));
    }
    let r: Vec<i64> = b.recent(3).iter().map(|x| x.value).collect();
    assert_eq!(r, vec![50, 60, 70]);
    let all: Vec<i64> = b.recent(100).iter().map(|x| x.value).collect();
    assert_eq!(all, vec![30, 40, 50, 60, 70]);
    assert_eq!(b.recent(1)[0].value, b.latest().unwrap().value);
    assert!(b.recent(0).is_empty());
}

#[test]
fn insert_past_capacity_overwrites_first() {
    let mut b = RingBuffer::new(3);
    for n in 1..=4i64 {
        b.push(sample(MetricId::DiskUsage, n, n));
    }
    let r: Vec<i64> = b.recent(3).iter().map(|x| x.value).collect();
    assert_eq!(r.len(), 3);
    assert_eq!(r, vec![2, 3, 4]);
}

#[test]
fn empty_buffer_and_unknown_metric() {
    let b = RingBuffer::new(2);
    assert!(b.latest().is_none());
    assert!(b.recent(5).is_empty());
    let s = store(10);
    assert!(s.latest(MetricId::NetRxRate).is_none());
    assert!(s.recent(MetricId::NetRxRate, 10).is_empty());
}

#[test]
fn metrics_have_separate_histories() {
    let mut s = store(2);
    s.insert(sample(MetricId::CpuUsage, 1, 1));
    s.insert(sample(MetricId::MemUsage, 2, 2));
    s.insert(sample(MetricId::CpuUsage, 3, 3));
    s.insert(sample(MetricId::CpuUsage, 4, 4));
    let cpu: Vec<i64> = s.recent(MetricId::CpuUsage, 10).iter().map(|x| x.value).collect();
    assert_eq!(cpu, vec![3, 4]);
    assert_eq!(s.recent(MetricId::MemUsage, 10).len(), 1);
}

#[test]
fn samples_keep_their_labels() {
    let mut s = store(4);
    let mut x = sample(MetricId::NetRxRate, 9, 42);
    x.labels.push(Label { key: "interface".to_string(), value: "eth0".to_string() });
    s.insert(x);
    let got = s.latest(MetricId::NetRxRate).unwrap();
    assert_eq!(got.labels.len(), 1);
    assert_eq!(got.labels.get(0).key, "interface");
    assert_eq!(got.labels.get(0).value, "eth0");
    assert_eq!(got.timestamp, 9);
}

#[test]
fn label_lists_keep_order_past_inline_room() {
    let mut l = LabelList::new();
    for i in 0..6 {
        l.push(Label { key: format!("k{}", i), value: format!("v{}", i) });
    }
    let c = l.clone();
    assert_eq!(c.len(), 6);
    for i in 0..6 {
        assert_eq!(c.get(i).key, format!("k{}", i));
        assert_eq!(c.get(i).value, format!("v{}", i));
    }
}
