//! The page on which the device is set up.
use vstd::prelude::*;

verus! {

/// The page: a form, and a script that reads the settings and sends changes back.
pub const SETUP_PAGE: &'static str = r#"<!doctype html>
<html>
<head><meta charset='utf-8'><title>EchoKit Setup</title></head>
<body>
<h2>EchoKit Settings (HTTP)</h2>
<div id='status'></div>
<form id='settingsForm'>
SSID: <input id='ssid' /><br/>
PASS: <input id='pass' type='password' /><br/>
Server URL: <input id='server' /><br/>
MADCTL: <input id='madctl' placeholder='0x36' /><button type='button' id='applyMad'>Apply</button><br/>
GAP X: <input id='gapx' type='number' value='0' /> Y: <input id='gapy' type='number' value='0' /><button type='button' id='applyGap'>Apply GAP</button><br/>
Rotate: <input id='rot' type='number' min='0' max='3' value='0' /><button type='button' id='applyRot'>Apply</button><br/>
<button id='saveSettings' type='button'>Save SSID/PASS/Server</button>
</form>
<script>
async function load() {
  const r = await fetch('/api/settings');
  const json = await r.json();
  document.getElementById('ssid').value = json.ssid || '';
  document.getElementById('pass').value = json.pass || '';
  document.getElementById('server').value = json.server_url || '';
  document.getElementById('madctl').value = json.madctl_hex || '';
  document.getElementById('gapx').value = json.gap_x || 0;
  document.getElementById('gapy').value = json.gap_y || 0;
  document.getElementById('rot').value = json.disp_rot || 0;
}
document.getElementById('applyMad').addEventListener('click', async () => {
  const v = document.getElementById('madctl').value.trim();
  await fetch('/api/set/madctl', {method:'POST', headers:{'Content-Type':'application/json'}, body: JSON.stringify({madctl:v})});
  alert('MADCTL send');
});
document.getElementById('applyGap').addEventListener('click', async () => {
  const x = parseInt(document.getElementById('gapx').value) || 0;
  const y = parseInt(document.getElementById('gapy').value) || 0;
  await fetch('/api/set/gap', {method:'POST', headers:{'Content-Type':'application/json'}, body: JSON.stringify({x:x,y:y})});
  alert('GAP send');
});
document.getElementById('applyRot').addEventListener('click', async () => {
  const r = parseInt(document.getElementById('rot').value) || 0;
  await fetch('/api/set/rotate', {method:'POST', headers:{'Content-Type':'application/json'}, body: JSON.stringify({rot:r})});
  alert('Rotate send');
});
document.getElementById('saveSettings').addEventListener('click', async () => {
  const ssid = document.getElementById('ssid').value || '';
  const pass = document.getElementById('pass').value || '';
  const server = document.getElementById('server').value || '';
  await fetch('/api/set/settings', {method:'POST', headers:{'Content-Type':'application/json'}, body: JSON.stringify({ssid:ssid, pass:pass, server_url:server})});
  alert('Settings saved (may require reboot to apply)');
});
load();
</script>
</body>
</html>"#;

} // verus!
