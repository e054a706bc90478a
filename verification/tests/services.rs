use purge_sidecar::ingest::{ingest_url, split_commas, validate_protocol, IngestConfig, Stream,
    StreamStatus};
use purge_sidecar::transcode::{EnvVar, JobResponse, MachineInfo, PodResponse, RunpodConfig,
    TranscodingProfile};

fn sample_config() -> RunpodConfig {
    RunpodConfig {
        api_key: "test-key".to_string(),
        gpu_type: "RTX4090".to_string(),
        max_pods: 10,
        auto_scale: true,
    }
}

#[test]
fn test_runpod_config_creation() {
    let config = sample_config();
    assert_eq!(config.gpu_type, "RTX4090");
    assert_eq!(config.max_pods, 10);
    assert_eq!(config.api_key, "test-key");
    assert!(config.auto_scale);
}

#[test]
fn test_auto_scaling_logic() {
    let config = sample_config();
    // With 4 local GPUs the threshold is 40 jobs.
    assert!(config.should_use_runpod(50, 4));
    assert!(!config.should_use_runpod(40, 4));
    assert!(!config.should_use_runpod(39, 4));

    let mut disabled = sample_config();
    disabled.auto_scale = false;
    assert!(!disabled.should_use_runpod(50, 4));
}

#[test]
fn test_gpu_type_id_mapping() {
    let mut config = sample_config();
    assert_eq!(config.gpu_type_id(), "NVIDIA RTX 4090");
    config.gpu_type = "A100".to_string();
    assert_eq!(config.gpu_type_id(), "NVIDIA A100 80GB PCIe");
    config.gpu_type = "H100".to_string();
    assert_eq!(config.gpu_type_id(), "NVIDIA H100 PCIe");
    config.gpu_type = "T4".to_string();
    assert_eq!(config.gpu_type_id(), "NVIDIA RTX 4090");
}

#[test]
fn test_build_pod_request() {
    let config = sample_config();
    let request = config.build_pod_request("transcode-worker-1");
    assert_eq!(request.name, "transcode-worker-1");
    assert_eq!(
        request.image_name,
        "registry.streamverse.io/streamverse/transcoding-service:latest"
    );
    assert_eq!(request.gpu_type_id, "NVIDIA RTX 4090");
    assert_eq!(request.cloud_type, "SECURE");
    assert_eq!(request.container_disk_in_gb, 50);
    assert_eq!(request.volume_in_gb, 100);
    assert_eq!(request.ports, "8101/http");
    assert_eq!(request.env.len(), 2);
    assert_eq!(request.env[0].key, "NVIDIA_VISIBLE_DEVICES");
    assert_eq!(request.env[0].value, "all");
    assert_eq!(request.env[1].key, "GPU_ACCELERATION");
    assert_eq!(request.env[1].value, "true");
}

#[test]
fn test_response_shapes_hold_plain_values() {
    let pod = PodResponse {
        id: "pod-1".to_string(),
        status: "RUNNING".to_string(),
        machine: MachineInfo {
            gpu_type: "RTX4090".to_string(),
            cpu_cores: 16,
            ram_gb: 64,
        },
    };
    assert_eq!(pod.machine.cpu_cores, 16);

    let job = JobResponse {
        id: "job-1".to_string(),
        status: "IN_QUEUE".to_string(),
        output: None,
    };
    assert!(job.output.is_none());

    let profile = TranscodingProfile {
        resolution: "1080p".to_string(),
        bitrate: 5000,
        fps: 60,
        codec: "h264".to_string(),
    };
    assert_eq!(profile.codec, "h264");

    let var = EnvVar {
        key: "GPU_ACCELERATION".to_string(),
        value: "true".to_string(),
    };
    assert_eq!(var.key, "GPU_ACCELERATION");
}

#[test]
fn test_ingest_config_limits() {
    let config = IngestConfig::with_endpoints(
        "http://minio:9000".to_string(),
        vec!["kafka:9092".to_string()],
    );
    assert_eq!(config.max_concurrent_streams, 10000);
    assert_eq!(config.buffer_size_mb, 512);
    assert_eq!(config.storage_endpoint, "http://minio:9000");
    assert_eq!(config.kafka_brokers, vec!["kafka:9092".to_string()]);
}

#[test]
fn test_split_commas() {
    assert_eq!(split_commas("kafka:9092"), vec!["kafka:9092".to_string()]);
    assert_eq!(
        split_commas("k1:9092,k2:9092,k3:9092"),
        vec![
            "k1:9092".to_string(),
            "k2:9092".to_string(),
            "k3:9092".to_string(),
        ]
    );
    assert_eq!(
        split_commas("a,,b"),
        vec!["a".to_string(), "".to_string(), "b".to_string()]
    );
    assert_eq!(split_commas(""), vec!["".to_string()]);
}

#[test]
fn test_validate_protocol() {
    for ok in ["rtmp", "srt", "webrtc", "hls", "rtsp"] {
        assert!(validate_protocol(&ok.to_string()));
    }
    for bad in ["quic", "http", "RTMP", ""] {
        assert!(!validate_protocol(&bad.to_string()));
    }
}

#[test]
fn test_ingest_url() {
    assert_eq!(
        ingest_url("stream-1"),
        "rtmp://ingest.streamverse.io/live/stream-1"
    );
}

#[test]
fn test_new_stream_is_initializing() {
    let stream = Stream::new(
        "stream-1".to_string(),
        "rtmp".to_string(),
        "rtmp://source/live".to_string(),
        1_700_000_000_000,
    );
    assert_eq!(stream.id, "stream-1");
    assert_eq!(stream.protocol, "rtmp");
    assert_eq!(stream.input_url, "rtmp://source/live");
    assert!(matches!(stream.status, StreamStatus::Initializing));
    assert_eq!(stream.bitrate, 0);
    assert_eq!(stream.start_time_millis, 1_700_000_000_000);
}
