use workbench::prober::{kill_command, listing_command, pids_to_kill, Platform};

#[test]
fn lsof_output() {
    assert_eq!(pids_to_kill(Platform::Unix, 5678, "1234\n 5678 \nabc\n\n42"), vec![1234, 5678, 42]);
}

#[test]
fn netstat_output() {
    let out = "  TCP    0.0.0.0:5678    0.0.0.0:0    LISTENING    4242\r\n  TCP    [::]:5678    [::]:0    LISTENING    77\r\n";
    assert_eq!(pids_to_kill(Platform::Windows, 5678, out), vec![4242, 77]);
    assert_eq!(pids_to_kill(Platform::Windows, 5678, "TCP 1.2.3.4:5678 x LISTENING name\n"), vec![]);
}

#[test]
fn netstat_other_ports_are_spared() {
    assert_eq!(pids_to_kill(Platform::Windows, 5678, "x:56789 42"), vec![]);
    let out = "  TCP    0.0.0.0:56789   0.0.0.0:0         LISTENING    42\r\n  TCP    127.0.0.1:50311 127.0.0.1:5678    ESTABLISHED  43\r\n  TCP    127.0.0.1:5678  127.0.0.1:50311   ESTABLISHED  44\r\n  UDP    0.0.0.0:5678    *:*                            45\r\n";
    assert_eq!(pids_to_kill(Platform::Windows, 5678, out), vec![44, 45]);
}

#[test]
fn free_port_twice_on_free_port() {
    for platform in [Platform::Unix, Platform::Windows] {
        assert!(pids_to_kill(platform, 5678, "").is_empty());
        assert!(pids_to_kill(platform, 5678, "  \n\t\n").is_empty());
        assert!(pids_to_kill(platform, 5678, "").is_empty());
    }
}

#[test]
fn native_commands() {
    assert_eq!(
        listing_command(Platform::Unix, 5678),
        ("sh".to_string(), vec!["-c".to_string(), "lsof -t -iTCP:5678 -sTCP:LISTEN".to_string()])
    );
    assert_eq!(
        listing_command(Platform::Windows, 11434),
        ("cmd".to_string(), vec!["/C".to_string(), "netstat -ano | findstr :11434".to_string()])
    );
    assert_eq!(
        kill_command(Platform::Unix, 99),
        ("kill".to_string(), vec!["-9".to_string(), "99".to_string()])
    );
    assert_eq!(
        kill_command(Platform::Windows, 99),
        ("taskkill".to_string(), vec!["/F".to_string(), "/PID".to_string(), "99".to_string()])
    );
}
