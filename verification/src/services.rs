//! Service detection based on well-known port numbers.
//!
//! Maps port numbers to the likely service name; ports outside the table
//! are unknown.

use vstd::prelude::*;

verus! {

/// The service name a port is known for, if any, as text.
pub open spec fn spec_service_name(port: u16) -> Option<Seq<char>> {
    match port {
        20u16 => Some("ftp-data"@),
        21u16 => Some("ftp"@),
        22u16 => Some("ssh"@),
        23u16 => Some("telnet"@),
        25u16 => Some("smtp"@),
        53u16 => Some("dns"@),
        67u16 => Some("dhcp-server"@),
        68u16 => Some("dhcp-client"@),
        69u16 => Some("tftp"@),
        80u16 => Some("http"@),
        88u16 => Some("kerberos"@),
        110u16 => Some("pop3"@),
        111u16 => Some("rpcbind"@),
        119u16 => Some("nntp"@),
        123u16 => Some("ntp"@),
        135u16 => Some("msrpc"@),
        137u16 => Some("netbios-ns"@),
        138u16 => Some("netbios-dgm"@),
        139u16 => Some("netbios-ssn"@),
        143u16 => Some("imap"@),
        161u16 => Some("snmp"@),
        162u16 => Some("snmptrap"@),
        179u16 => Some("bgp"@),
        194u16 => Some("irc"@),
        389u16 => Some("ldap"@),
        443u16 => Some("https"@),
        445u16 => Some("microsoft-ds"@),
        464u16 => Some("kpasswd"@),
        465u16 => Some("smtps"@),
        500u16 => Some("isakmp"@),
        513u16 => Some("rlogin"@),
        514u16 => Some("syslog"@),
        515u16 => Some("printer"@),
        520u16 => Some("rip"@),
        521u16 => Some("ripng"@),
        523u16 => Some("ibm-db2"@),
        543u16 => Some("klogin"@),
        544u16 => Some("kshell"@),
        548u16 => Some("afp"@),
        554u16 => Some("rtsp"@),
        587u16 => Some("submission"@),
        631u16 => Some("ipp"@),
        636u16 => Some("ldaps"@),
        873u16 => Some("rsync"@),
        902u16 => Some("vmware-auth"@),
        993u16 => Some("imaps"@),
        995u16 => Some("pop3s"@),
        1080u16 => Some("socks"@),
        1194u16 => Some("openvpn"@),
        1433u16 => Some("mssql"@),
        1434u16 => Some("mssql-m"@),
        1521u16 => Some("oracle"@),
        1701u16 => Some("l2tp"@),
        1723u16 => Some("pptp"@),
        1812u16 => Some("radius"@),
        1813u16 => Some("radius-acct"@),
        1883u16 => Some("mqtt"@),
        2049u16 => Some("nfs"@),
        2082u16 => Some("cpanel"@),
        2083u16 => Some("cpanel-ssl"@),
        2086u16 => Some("whm"@),
        2087u16 => Some("whm-ssl"@),
        2181u16 => Some("zookeeper"@),
        2375u16 => Some("docker"@),
        2376u16 => Some("docker-ssl"@),
        3000u16 => Some("grafana"@),
        3128u16 => Some("squid"@),
        3268u16 => Some("globalcat"@),
        3269u16 => Some("globalcat-ssl"@),
        3306u16 => Some("mysql"@),
        3389u16 => Some("rdp"@),
        3690u16 => Some("svn"@),
        4369u16 => Some("epmd"@),
        4443u16 => Some("pharos"@),
        5000u16 => Some("upnp"@),
        5060u16 => Some("sip"@),
        5061u16 => Some("sips"@),
        5222u16 => Some("xmpp-client"@),
        5269u16 => Some("xmpp-server"@),
        5432u16 => Some("postgresql"@),
        5672u16 => Some("amqp"@),
        5900u16 => Some("vnc"@),
        5984u16 => Some("couchdb"@),
        6379u16 => Some("redis"@),
        6443u16 => Some("kubernetes-api"@),
        6666u16 => Some("irc"@),
        6667u16 => Some("irc"@),
        7001u16 => Some("weblogic"@),
        7077u16 => Some("spark-master"@),
        8000u16 => Some("http-alt"@),
        8008u16 => Some("http-alt"@),
        8080u16 => Some("http-proxy"@),
        8081u16 => Some("http-alt"@),
        8082u16 => Some("http-alt"@),
        8083u16 => Some("http-alt"@),
        8443u16 => Some("https-alt"@),
        8888u16 => Some("http-alt"@),
        9000u16 => Some("cslistener"@),
        9042u16 => Some("cassandra"@),
        9090u16 => Some("prometheus"@),
        9092u16 => Some("kafka"@),
        9200u16 => Some("elasticsearch"@),
        9300u16 => Some("elasticsearch-cluster"@),
        9418u16 => Some("git"@),
        10000u16 => Some("webmin"@),
        11211u16 => Some("memcached"@),
        15672u16 => Some("rabbitmq-mgmt"@),
        27017u16 => Some("mongodb"@),
        27018u16 => Some("mongodb"@),
        27019u16 => Some("mongodb"@),
        28017u16 => Some("mongodb-web"@),
        50000u16 => Some("db2"@),
        50070u16 => Some("hdfs-namenode"@),
        50075u16 => Some("hdfs-datanode"@),
        _ => None,
    }
}

/// Look up the probable service name for a port.
///
/// Returns `None` if the port is not in the well-known services table.
pub fn get_service_name(port: u16) -> (r: Option<&'static str>)
    ensures
        r is Some <==> spec_service_name(port) is Some,
        r is Some ==> r.unwrap()@ == spec_service_name(port).unwrap(),
{
    match port {
        20u16 => Some("ftp-data"),
        21u16 => Some("ftp"),
        22u16 => Some("ssh"),
        23u16 => Some("telnet"),
        25u16 => Some("smtp"),
        53u16 => Some("dns"),
        67u16 => Some("dhcp-server"),
        68u16 => Some("dhcp-client"),
        69u16 => Some("tftp"),
        80u16 => Some("http"),
        88u16 => Some("kerberos"),
        110u16 => Some("pop3"),
        111u16 => Some("rpcbind"),
        119u16 => Some("nntp"),
        123u16 => Some("ntp"),
        135u16 => Some("msrpc"),
        137u16 => Some("netbios-ns"),
        138u16 => Some("netbios-dgm"),
        139u16 => Some("netbios-ssn"),
        143u16 => Some("imap"),
        161u16 => Some("snmp"),
        162u16 => Some("snmptrap"),
        179u16 => Some("bgp"),
        194u16 => Some("irc"),
        389u16 => Some("ldap"),
        443u16 => Some("https"),
        445u16 => Some("microsoft-ds"),
        464u16 => Some("kpasswd"),
        465u16 => Some("smtps"),
        500u16 => Some("isakmp"),
        513u16 => Some("rlogin"),
        514u16 => Some("syslog"),
        515u16 => Some("printer"),
        520u16 => Some("rip"),
        521u16 => Some("ripng"),
        523u16 => Some("ibm-db2"),
        543u16 => Some("klogin"),
        544u16 => Some("kshell"),
        548u16 => Some("afp"),
        554u16 => Some("rtsp"),
        587u16 => Some("submission"),
        631u16 => Some("ipp"),
        636u16 => Some("ldaps"),
        873u16 => Some("rsync"),
        902u16 => Some("vmware-auth"),
        993u16 => Some("imaps"),
        995u16 => Some("pop3s"),
        1080u16 => Some("socks"),
        1194u16 => Some("openvpn"),
        1433u16 => Some("mssql"),
        1434u16 => Some("mssql-m"),
        1521u16 => Some("oracle"),
        1701u16 => Some("l2tp"),
        1723u16 => Some("pptp"),
        1812u16 => Some("radius"),
        1813u16 => Some("radius-acct"),
        1883u16 => Some("mqtt"),
        2049u16 => Some("nfs"),
        2082u16 => Some("cpanel"),
        2083u16 => Some("cpanel-ssl"),
        2086u16 => Some("whm"),
        2087u16 => Some("whm-ssl"),
        2181u16 => Some("zookeeper"),
        2375u16 => Some("docker"),
        2376u16 => Some("docker-ssl"),
        3000u16 => Some("grafana"),
        3128u16 => Some("squid"),
        3268u16 => Some("globalcat"),
        3269u16 => Some("globalcat-ssl"),
        3306u16 => Some("mysql"),
        3389u16 => Some("rdp"),
        3690u16 => Some("svn"),
        4369u16 => Some("epmd"),
        4443u16 => Some("pharos"),
        5000u16 => Some("upnp"),
        5060u16 => Some("sip"),
        5061u16 => Some("sips"),
        5222u16 => Some("xmpp-client"),
        5269u16 => Some("xmpp-server"),
        5432u16 => Some("postgresql"),
        5672u16 => Some("amqp"),
        5900u16 => Some("vnc"),
        5984u16 => Some("couchdb"),
        6379u16 => Some("redis"),
        6443u16 => Some("kubernetes-api"),
        6666u16 => Some("irc"),
        6667u16 => Some("irc"),
        7001u16 => Some("weblogic"),
        7077u16 => Some("spark-master"),
        8000u16 => Some("http-alt"),
        8008u16 => Some("http-alt"),
        8080u16 => Some("http-proxy"),
        8081u16 => Some("http-alt"),
        8082u16 => Some("http-alt"),
        8083u16 => Some("http-alt"),
        8443u16 => Some("https-alt"),
        8888u16 => Some("http-alt"),
        9000u16 => Some("cslistener"),
        9042u16 => Some("cassandra"),
        9090u16 => Some("prometheus"),
        9092u16 => Some("kafka"),
        9200u16 => Some("elasticsearch"),
        9300u16 => Some("elasticsearch-cluster"),
        9418u16 => Some("git"),
        10000u16 => Some("webmin"),
        11211u16 => Some("memcached"),
        15672u16 => Some("rabbitmq-mgmt"),
        27017u16 => Some("mongodb"),
        27018u16 => Some("mongodb"),
        27019u16 => Some("mongodb"),
        28017u16 => Some("mongodb-web"),
        50000u16 => Some("db2"),
        50070u16 => Some("hdfs-namenode"),
        50075u16 => Some("hdfs-datanode"),
        _ => None,
    }
}

/// The descriptive text for the service on a port: its name, or "unknown".
pub open spec fn spec_service_text(port: u16) -> Seq<char> {
    match spec_service_name(port) {
        Some(name) => name,
        None => "unknown"@,
    }
}

/// A descriptive string for the service on a port; "unknown" if the port
/// is not recognized.
pub fn get_service_description(port: u16) -> (r: &'static str)
    ensures
        r@ == spec_service_text(port),
{
    match get_service_name(port) {
        Some(name) => name,
        None => "unknown",
    }
}

} // verus!
