//! Transcoding pod scheduling: configuration, request shapes, and the
//! pure scaling decisions. The HTTP calls that carry these values to the
//! pod provider live outside the library; what is verified here is what
//! gets sent and when offloading is chosen.

use vstd::prelude::*;

verus! {

/// Pod-provider configuration.
#[derive(Debug, Clone)]
pub struct RunpodConfig {
    pub api_key: String,
    pub gpu_type: String,
    pub max_pods: u32,
    pub auto_scale: bool,
}

/// Body of a pod-creation request.
#[derive(Debug)]
pub struct PodRequest {
    pub name: String,
    pub image_name: String,
    pub gpu_type_id: String,
    pub cloud_type: String,
    pub container_disk_in_gb: u32,
    pub volume_in_gb: u32,
    pub env: Vec<EnvVar>,
    pub ports: String,
}

/// One environment variable handed to a pod.
#[derive(Debug)]
pub struct EnvVar {
    pub key: String,
    pub value: String,
}

/// Body of a pod-creation response.
#[derive(Debug)]
pub struct PodResponse {
    pub id: String,
    pub status: String,
    pub machine: MachineInfo,
}

/// Hardware description in a pod-creation response.
#[derive(Debug)]
pub struct MachineInfo {
    pub gpu_type: String,
    pub cpu_cores: u32,
    pub ram_gb: u32,
}

/// Body of a job submission or status response.
#[derive(Debug)]
pub struct JobResponse {
    pub id: String,
    pub status: String,
    pub output: Option<String>,
}

/// Parameters of one transcoding job.
#[derive(Debug)]
pub struct TranscodingProfile {
    pub resolution: String,
    pub bitrate: u32,
    pub fps: u32,
    pub codec: String,
}

/// The provider-side GPU identifier for a configured GPU type name; an
/// unknown name falls back to the RTX 4090 identifier.
pub open spec fn spec_gpu_type_id(gpu_type: Seq<char>) -> Seq<char> {
    if gpu_type == "RTX4090"@ {
        "NVIDIA RTX 4090"@
    } else if gpu_type == "A100"@ {
        "NVIDIA A100 80GB PCIe"@
    } else if gpu_type == "H100"@ {
        "NVIDIA H100 PCIe"@
    } else {
        "NVIDIA RTX 4090"@
    }
}

impl RunpodConfig {
    /// Map the configured GPU type name to the provider's identifier.
    pub fn gpu_type_id(&self) -> (r: String)
        ensures
            r@ == spec_gpu_type_id(self.gpu_type@),
    {
        if self.gpu_type == String::from_str("RTX4090") {
            String::from_str("NVIDIA RTX 4090")
        } else if self.gpu_type == String::from_str("A100") {
            String::from_str("NVIDIA A100 80GB PCIe")
        } else if self.gpu_type == String::from_str("H100") {
            String::from_str("NVIDIA H100 PCIe")
        } else {
            String::from_str("NVIDIA RTX 4090")
        }
    }

    /// Auto-scale decision: offload to cloud pods exactly when scaling is
    /// enabled and the job queue is deeper than ten jobs per local GPU.
    pub fn should_use_runpod(&self, queue_depth: u32, local_gpu_count: u32) -> (r: bool)
        ensures
            r == (self.auto_scale && queue_depth > local_gpu_count * 10),
    {
        if !self.auto_scale {
            return false;
        }
        let threshold: u64 = (local_gpu_count as u64) * 10;
        (queue_depth as u64) > threshold
    }

    /// Build the pod-creation request for a transcoding pod: the fixed
    /// image, disk sizes, ports and GPU environment, with the GPU type
    /// taken from this configuration.
    pub fn build_pod_request(&self, pod_name: &str) -> (r: PodRequest)
        ensures
            r.name@ == pod_name@,
            r.image_name@ == "registry.streamverse.io/streamverse/transcoding-service:latest"@,
            r.gpu_type_id@ == spec_gpu_type_id(self.gpu_type@),
            r.cloud_type@ == "SECURE"@,
            r.container_disk_in_gb == 50,
            r.volume_in_gb == 100,
            r.env@.len() == 2,
            r.env@[0].key@ == "NVIDIA_VISIBLE_DEVICES"@,
            r.env@[0].value@ == "all"@,
            r.env@[1].key@ == "GPU_ACCELERATION"@,
            r.env@[1].value@ == "true"@,
            r.ports@ == "8101/http"@,
    {
        let mut env: Vec<EnvVar> = Vec::new();
        env.push(EnvVar {
            key: String::from_str("NVIDIA_VISIBLE_DEVICES"),
            value: String::from_str("all"),
        });
        env.push(EnvVar {
            key: String::from_str("GPU_ACCELERATION"),
            value: String::from_str("true"),
        });
        PodRequest {
            name: pod_name.to_owned(),
            image_name: String::from_str(
                "registry.streamverse.io/streamverse/transcoding-service:latest",
            ),
            gpu_type_id: self.gpu_type_id(),
            cloud_type: String::from_str("SECURE"),
            container_disk_in_gb: 50,
            volume_in_gb: 100,
            env,
            ports: String::from_str("8101/http"),
        }
    }
}

} // verus!
