//! Server deployment support: the configuration shapes, the generated
//! installation script, and the normal form of a configured server address.
//! Running the script over a connection is the surrounding application's
//! affair; what is computed from the configuration is all here.

use vstd::prelude::*;
use vstd::string::*;
use crate::text::{
    chars_of,
    string_from_chars,
    trim_chars,
    trim_spaces,
    before_char,
    before_char_exec,
    remove_all,
    remove_all_exec,
};

verus! {

/// What a deployment needs to know about the target server.
#[derive(Debug, Clone)]
pub struct DeploymentConfig {
    pub server_ip: String,
    pub ssh_user: String,
    pub ssh_password: String,
    pub domain: Option<String>,
    pub admin_username: String,
    pub admin_password: String,
}

/// One step of a deployment as reported to the caller.
#[derive(Debug, Clone)]
pub struct DeploymentStatus {
    pub step: String,
    pub progress: u8,
    pub message: String,
    pub success: bool,
}

/// The name the server is installed under: the configured domain, or the
/// server address where none is configured.
pub open spec fn deploy_domain(config: &DeploymentConfig) -> Seq<char> {
    match config.domain {
        Some(d) => d@,
        None => config.server_ip@,
    }
}

/// The full text of the installation script for a server name, an admin
/// user and an admin password.
pub open spec fn install_script_text(
    domain: Seq<char>,
    admin_user: Seq<char>,
    admin_pass: Seq<char>,
) -> Seq<char> {
    "#!/bin/bash\nset -e\n\necho \"=== Matrix Synapse Auto-Installer ===\"\necho \"Server: "@ + domain + "\"\n\n# Update system\necho \"[1/8] Updating system packages...\"\nsudo apt update && sudo apt upgrade -y\n\n# Install dependencies\necho \"[2/8] Installing dependencies...\"\nsudo apt install -y wget apt-transport-https gnupg lsb-release nginx certbot python3-certbot-nginx curl\n\n# Add Matrix repository\necho \"[3/8] Adding Matrix repository...\"\nsudo wget -O /usr/share/keyrings/matrix-org-archive-keyring.gpg https://packages.matrix.org/debian/matrix-org-archive-keyring.gpg\necho \"deb [signed-by=/usr/share/keyrings/matrix-org-archive-keyring.gpg] https://packages.matrix.org/debian/ $(lsb_release -cs) main\" | sudo tee /etc/apt/sources.list.d/matrix-org.list\n\n# Install Synapse\necho \"[4/8] Installing Matrix Synapse...\"\nsudo apt update\necho \"matrix-synapse matrix-synapse/server-name string "@ + domain + "\" | sudo debconf-set-selections\necho \"matrix-synapse matrix-synapse/report-stats boolean false\" | sudo debconf-set-selections\nsudo DEBIAN_FRONTEND=noninteractive apt install -y matrix-synapse-py3\n\n# Configure Synapse\necho \"[5/8] Configuring Synapse...\"\nsudo tee /etc/matrix-synapse/homeserver.yaml > /dev/null <<EOF\nserver_name: \""@ + domain + "\"\npid_file: /var/run/matrix-synapse.pid\nweb_client: false\nsoft_file_limit: 0\nlog_config: \"/etc/matrix-synapse/log.yaml\"\n\nlisteners:\n  - port: 8008\n    tls: false\n    type: http\n    x_forwarded: true\n    bind_addresses: ['0.0.0.0']\n    resources:\n      - names: [client, federation]\n        compress: false\n\ndatabase:\n  name: sqlite3\n  args:\n    database: /var/lib/matrix-synapse/homeserver.db\n\nenable_registration: true\nenable_registration_without_verification: true\nallow_public_rooms_over_federation: true\nallow_public_rooms_without_auth: false\n\nmedia_store_path: /var/lib/matrix-synapse/media\nmax_upload_size: 50M\nEOF\n\n# Configure Nginx\necho \"[6/8] Configuring Nginx...\"\nsudo tee /etc/nginx/sites-available/matrix > /dev/null <<'NGINX'\nserver {\n    listen 80;\n    listen [::]:80;\n    server_name "@ + domain + ";\n\n    location /.well-known/matrix/ {\n        proxy_pass http://localhost:8008/.well-known/matrix/;\n        proxy_set_header X-Forwarded-For $remote_addr;\n    }\n\n    location /_matrix {\n        proxy_pass http://localhost:8008;\n        proxy_set_header X-Forwarded-For $remote_addr;\n        proxy_set_header X-Forwarded-Proto $scheme;\n        proxy_set_header Host $host;\n        client_max_body_size 50M;\n    }\n}\nNGINX\n\nsudo ln -sf /etc/nginx/sites-available/matrix /etc/nginx/sites-enabled/\nsudo nginx -t\nsudo systemctl restart nginx\n\n# Start Synapse\necho \"[7/8] Starting Matrix Synapse...\"\nsudo systemctl enable matrix-synapse\nsudo systemctl restart matrix-synapse\n\n# Wait for service to start\nsleep 5\n\n# Create admin user\necho \"[8/8] Creating admin user...\"\nregister_new_matrix_user -c /etc/matrix-synapse/homeserver.yaml -u "@ + admin_user + " -p "@ + admin_pass + " -a http://localhost:8008\n\n# Configure firewall\necho \"Configuring firewall...\"\nsudo ufw allow 80/tcp\nsudo ufw allow 443/tcp\nsudo ufw allow 8008/tcp\nsudo ufw --force enable\n\n# Verify installation\necho \"Verifying installation...\"\ncurl -s http://localhost:8008/_matrix/client/versions | grep -q \"versions\" && echo \"✓ Synapse is running!\" || echo \"✗ Verification failed\"\n\necho \"\"\necho \"=== Installation Complete! ===\"\necho \"Homeserver URL: http://"@ + domain + ":8008\"\necho \"or https://"@ + domain + " (if SSL configured)\"\necho \"Admin user: "@ + admin_user + "\"\necho \"\"\necho \"Next steps:\"\necho \"1. Configure SSL certificate (optional): sudo certbot --nginx -d "@ + domain + "\"\necho \"2. Connect from your Matrix client\"\n"@
}

/// The installation script for a configuration: a fixed template around
/// the server name and the admin credentials.
pub fn create_synapse_install_script(config: &DeploymentConfig) -> (r: String)
    ensures
        r@ == install_script_text(
            deploy_domain(config),
            config.admin_username@,
            config.admin_password@,
        ),
{
    let domain: &String = match &config.domain {
        Some(d) => d,
        None => &config.server_ip,
    };
    let mut s = String::new();
    s.append("#!/bin/bash\nset -e\n\necho \"=== Matrix Synapse Auto-Installer ===\"\necho \"Server: ");
    s.append(domain.as_str());
    s.append("\"\n\n# Update system\necho \"[1/8] Updating system packages...\"\nsudo apt update && sudo apt upgrade -y\n\n# Install dependencies\necho \"[2/8] Installing dependencies...\"\nsudo apt install -y wget apt-transport-https gnupg lsb-release nginx certbot python3-certbot-nginx curl\n\n# Add Matrix repository\necho \"[3/8] Adding Matrix repository...\"\nsudo wget -O /usr/share/keyrings/matrix-org-archive-keyring.gpg https://packages.matrix.org/debian/matrix-org-archive-keyring.gpg\necho \"deb [signed-by=/usr/share/keyrings/matrix-org-archive-keyring.gpg] https://packages.matrix.org/debian/ $(lsb_release -cs) main\" | sudo tee /etc/apt/sources.list.d/matrix-org.list\n\n# Install Synapse\necho \"[4/8] Installing Matrix Synapse...\"\nsudo apt update\necho \"matrix-synapse matrix-synapse/server-name string ");
    s.append(domain.as_str());
    s.append("\" | sudo debconf-set-selections\necho \"matrix-synapse matrix-synapse/report-stats boolean false\" | sudo debconf-set-selections\nsudo DEBIAN_FRONTEND=noninteractive apt install -y matrix-synapse-py3\n\n# Configure Synapse\necho \"[5/8] Configuring Synapse...\"\nsudo tee /etc/matrix-synapse/homeserver.yaml > /dev/null <<EOF\nserver_name: \"");
    s.append(domain.as_str());
    s.append("\"\npid_file: /var/run/matrix-synapse.pid\nweb_client: false\nsoft_file_limit: 0\nlog_config: \"/etc/matrix-synapse/log.yaml\"\n\nlisteners:\n  - port: 8008\n    tls: false\n    type: http\n    x_forwarded: true\n    bind_addresses: ['0.0.0.0']\n    resources:\n      - names: [client, federation]\n        compress: false\n\ndatabase:\n  name: sqlite3\n  args:\n    database: /var/lib/matrix-synapse/homeserver.db\n\nenable_registration: true\nenable_registration_without_verification: true\nallow_public_rooms_over_federation: true\nallow_public_rooms_without_auth: false\n\nmedia_store_path: /var/lib/matrix-synapse/media\nmax_upload_size: 50M\nEOF\n\n# Configure Nginx\necho \"[6/8] Configuring Nginx...\"\nsudo tee /etc/nginx/sites-available/matrix > /dev/null <<'NGINX'\nserver {\n    listen 80;\n    listen [::]:80;\n    server_name ");
    s.append(domain.as_str());
    s.append(";\n\n    location /.well-known/matrix/ {\n        proxy_pass http://localhost:8008/.well-known/matrix/;\n        proxy_set_header X-Forwarded-For $remote_addr;\n    }\n\n    location /_matrix {\n        proxy_pass http://localhost:8008;\n        proxy_set_header X-Forwarded-For $remote_addr;\n        proxy_set_header X-Forwarded-Proto $scheme;\n        proxy_set_header Host $host;\n        client_max_body_size 50M;\n    }\n}\nNGINX\n\nsudo ln -sf /etc/nginx/sites-available/matrix /etc/nginx/sites-enabled/\nsudo nginx -t\nsudo systemctl restart nginx\n\n# Start Synapse\necho \"[7/8] Starting Matrix Synapse...\"\nsudo systemctl enable matrix-synapse\nsudo systemctl restart matrix-synapse\n\n# Wait for service to start\nsleep 5\n\n# Create admin user\necho \"[8/8] Creating admin user...\"\nregister_new_matrix_user -c /etc/matrix-synapse/homeserver.yaml -u ");
    s.append(config.admin_username.as_str());
    s.append(" -p ");
    s.append(config.admin_password.as_str());
    s.append(" -a http://localhost:8008\n\n# Configure firewall\necho \"Configuring firewall...\"\nsudo ufw allow 80/tcp\nsudo ufw allow 443/tcp\nsudo ufw allow 8008/tcp\nsudo ufw --force enable\n\n# Verify installation\necho \"Verifying installation...\"\ncurl -s http://localhost:8008/_matrix/client/versions | grep -q \"versions\" && echo \"✓ Synapse is running!\" || echo \"✗ Verification failed\"\n\necho \"\"\necho \"=== Installation Complete! ===\"\necho \"Homeserver URL: http://");
    s.append(domain.as_str());
    s.append(":8008\"\necho \"or https://");
    s.append(domain.as_str());
    s.append(" (if SSL configured)\"\necho \"Admin user: ");
    s.append(config.admin_username.as_str());
    s.append("\"\necho \"\"\necho \"Next steps:\"\necho \"1. Configure SSL certificate (optional): sudo certbot --nginx -d ");
    s.append(domain.as_str());
    s.append("\"\necho \"2. Connect from your Matrix client\"\n");
    s
}

/// The bare host of a configured server address: surrounding white space
/// removed, every `https://` and `http://` removed, the rest cut at the
/// first `:` and trimmed again.
pub open spec fn clean_ip_spec(s: Seq<char>) -> Seq<char> {
    trim_spaces(
        before_char(remove_all(remove_all(trim_spaces(s), "https://"@), "http://"@), ':'),
    )
}

/// The host to open a connection to, from the configured server address.
pub fn clean_server_ip(config: &DeploymentConfig) -> (r: String)
    ensures
        r@ == clean_ip_spec(config.server_ip@),
{
    proof {
        reveal_strlit("https://");
        reveal_strlit("http://");
    }
    let cs = chars_of(config.server_ip.as_str());
    let t1 = trim_chars(&cs);
    let pat1 = chars_of("https://");
    let r1 = remove_all_exec(&t1, &pat1);
    let pat2 = chars_of("http://");
    let r2 = remove_all_exec(&r1, &pat2);
    let b = before_char_exec(&r2, ':');
    let t2 = trim_chars(&b);
    string_from_chars(&t2)
}

} // verus!
