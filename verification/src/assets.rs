//! The files that a base image is provisioned with.
use vstd::prelude::*;

verus! {

/// Printed by the provisioning script as its last line when it succeeded.
pub const SUCCESS_SENTINEL: &'static str = "SENDIT_PROVISION_OK";

/// What the public key replaces in the user data.
pub const KEY_PLACEHOLDER: &'static str = "@SSH_PUBLIC_KEY@";

/// The cloud-init user data: creates the login user and runs the provisioning
/// script from the seed.
pub const USER_DATA: &'static str = "#cloud-config
hostname: sendit
disable_root: false
ssh_pwauth: false
users:
  - name: dev
    shell: /bin/bash
    sudo: ALL=(ALL) NOPASSWD:ALL
    lock_passwd: true
    ssh_authorized_keys:
      - \"@SSH_PUBLIC_KEY@\"
  - name: root
    ssh_authorized_keys:
      - \"@SSH_PUBLIC_KEY@\"
runcmd:
  - mkdir -p /run/sendit-seed
  - mount -o ro /dev/disk/by-label/cidata /run/sendit-seed
  - sh /run/sendit-seed/provision.sh > /dev/hvc1 2>&1
  - poweroff
";

/// The provisioning script. It must not contain the sentinel literally, or a
/// failed run that echoes its own source would look successful.
pub const PROVISION_SCRIPT: &'static str = "#!/bin/sh
# Provisions the base image. Prints its status as its last line.
seed=/run/sendit-seed
status=FAILED

provision() {
    set -eu
    export DEBIAN_FRONTEND=noninteractive
    apt-get update
    apt-get -y upgrade
    apt-get -y install git curl ca-certificates build-essential
    hostnamectl set-hostname sendit
    cp \"$seed/banner.txt\" /etc/motd

    # DHCP leases are identified by MAC address.
    mkdir -p /etc/systemd/network
    cat > /etc/systemd/network/10-sendit.network <<'UNIT'
[Match]
Type=ether

[Network]
DHCP=ipv4

[DHCPv4]
ClientIdentifier=mac
UNIT

    # Mounts the shared directories as the manifest says.
    cat > /usr/local/sbin/sendit-mounts <<'SCRIPT'
#!/bin/sh
mkdir -p /run/sendit-meta /run/sendit-empty
mount -t virtiofs -o ro meta /run/sendit-meta || exit 0
while read -r tag mode path; do
    if [ \"$tag\" = hide ]; then
        path=\"$mode${path:+ $path}\"
        [ -L \"$path\" ] || [ ! -d \"$path\" ] || mount --bind -o ro /run/sendit-empty \"$path\"
    elif [ ! -L \"$path\" ]; then
        mkdir -p \"$path\" && mount -t virtiofs -o \"$mode\" \"$tag\" \"$path\"
    fi
done < /run/sendit-meta/manifest
SCRIPT
    chmod 755 /usr/local/sbin/sendit-mounts
    cat > /etc/systemd/system/sendit-mounts.service <<'UNIT'
[Unit]
Description=Mount the directories shared by sendit
Before=getty.target ssh.service

[Service]
Type=oneshot
RemainAfterExit=yes
ExecStart=/usr/local/sbin/sendit-mounts

[Install]
WantedBy=multi-user.target
UNIT

    # Applies the host terminal's type and size to the console.
    cat > /usr/local/sbin/sendit-terminal <<'SCRIPT'
#!/bin/sh
exec 3<> /dev/hvc2
echo '?' >&3
while read -r first second third <&3; do
    if [ \"$first\" = term ]; then
        printf 'TERM=%s\\nCOLORTERM=%s\\n' \"${second:-linux}\" \"$third\" > /run/sendit-terminal
    else
        stty -F /dev/hvc0 rows \"$first\" cols \"$second\"
    fi
done
SCRIPT
    chmod 755 /usr/local/sbin/sendit-terminal
    cat > /etc/systemd/system/sendit-terminal.service <<'UNIT'
[Unit]
Description=Apply the terminal of the host to the console

[Service]
ExecStart=/usr/local/sbin/sendit-terminal

[Install]
WantedBy=multi-user.target
UNIT

    # Logging out of the console shuts the VM down.
    mkdir -p /etc/systemd/system/serial-getty@hvc0.service.d
    cat > /etc/systemd/system/serial-getty@hvc0.service.d/sendit.conf <<'UNIT'
[Service]
ExecStart=
ExecStart=-/sbin/agetty --autologin dev --noclear %I
ExecStopPost=/sbin/poweroff
Restart=no
UNIT
    systemctl enable sendit-mounts sendit-terminal

    while read -r file name; do
        echo \"Running $name\"
        sh \"$seed/custom/$file\"
    done < \"$seed/custom/list\"
}

(provision) && status=OK
echo \"SENDIT_PROVISION_${status}\"
";

/// Shown on login.
pub const BANNER: &'static str = "
 ____  _____ _   _ ____    ___ _____
/ ___|| ____| \\ | |  _ \\  |_ _|_   _|
\\___ \\|  _| |  \\| | | | |  | |  | |
 ___) | |___| |\\  | |_| |  | |  | |
|____/|_____|_| \\_|____/  |___| |_|

";

/// The entitlements that the executable is signed with.
pub const ENTITLEMENTS: &'static str = "<?xml version=\"1.0\" encoding=\"UTF-8\"?>
<!DOCTYPE plist PUBLIC \"-//Apple//DTD PLIST 1.0//EN\" \"http://www.apple.com/DTDs/PropertyList-1.0.dtd\">
<plist version=\"1.0\">
<dict>
    <key>com.apple.security.virtualization</key>
    <true/>
</dict>
</plist>
";

} // verus!
