use std::time::{Duration, Instant};

use kubeconfig_doctor::probe::{tcp_reachable, TcpOutcome, TCP_PROBE_TIMEOUT_SECS};

fn runtime() -> tokio::runtime::Runtime {
    tokio::runtime::Builder::new_current_thread().enable_all().build().unwrap()
}

async fn probe(addr: String) -> TcpOutcome {
    let attempt = tokio::time::timeout(
        Duration::from_secs(TCP_PROBE_TIMEOUT_SECS),
        tokio::net::TcpStream::connect(addr),
    )
    .await;
    match attempt {
        Ok(Ok(_)) => TcpOutcome::Connected,
        Ok(Err(e)) => {
            if e.kind() == std::io::ErrorKind::ConnectionRefused {
                TcpOutcome::Refused
            } else {
                TcpOutcome::Failed
            }
        }
        Err(_) => TcpOutcome::TimedOut,
    }
}

#[test]
fn closed_port_is_unreachable_within_timeout() {
    let rt = runtime();
    let started = Instant::now();
    let outcome = rt.block_on(async {
        let port = {
            let listener = tokio::net::TcpListener::bind("127.0.0.1:0").await.unwrap();
            listener.local_addr().unwrap().port()
            // listener dropped here: the port is closed again
        };
        probe(format!("127.0.0.1:{}", port)).await
    });
    assert!(!tcp_reachable(&outcome));
    // bounded by the probe timeout plus scheduling slack, never a hang
    assert!(started.elapsed() < Duration::from_secs(TCP_PROBE_TIMEOUT_SECS + 2));
}
