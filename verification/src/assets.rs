//! The texts of the pages and scripts that are served to clients.
use vstd::prelude::*;

verus! {

/// The challenge page up to its style.
pub const PAGE_HEAD: &'static str = r#"<!DOCTYPE html>
<html>
<head>
<meta charset="utf-8">
<meta name="viewport" content="width=device-width,initial-scale=1">
<title>Please wait...</title>
<style>"#;

/// The challenge page between its style and its script.
pub const PAGE_MIDDLE: &'static str = r#"</style>
</head>
<body>
<div id="void-challenge">
  <div class="void-spinner"></div>
  <p id="void-status">Verifying your browser...</p>
  <div id="void-progress"></div>
</div>
<script>"#;

/// The challenge page after its script.
pub const PAGE_TAIL: &'static str = r#"</script>
</body>
</html>"#;

/// The style of the challenge page.
pub const CHALLENGE_CSS: &'static str = r#"
* { box-sizing: border-box; margin: 0; padding: 0; }
body {
    font-family: -apple-system, BlinkMacSystemFont, 'Segoe UI', sans-serif;
    background: #0a0a0a;
    color: #fff;
    display: flex;
    align-items: center;
    justify-content: center;
    min-height: 100vh;
}
#void-challenge { text-align: center; max-width: 400px; }
.void-spinner {
    width: 48px; height: 48px;
    border: 3px solid rgba(255,255,255,0.1);
    border-top-color: #c8ff00;
    border-radius: 50%;
    animation: spin 0.8s linear infinite;
    margin: 0 auto 24px;
}
@keyframes spin { to { transform: rotate(360deg); } }
p { color: rgba(255,255,255,0.6); font-size: 14px; }
#void-progress {
    width: 200px; height: 2px;
    background: rgba(255,255,255,0.1);
    border-radius: 2px;
    margin: 16px auto 0;
    overflow: hidden;
}
#void-progress::after {
    content: '';
    display: block;
    width: 0; height: 100%;
    background: #c8ff00;
    animation: progress 2s ease forwards;
}
@keyframes progress { to { width: 100%; } }
"#;

/// The start of the challenge script, with the placeholders for what a challenge is made of.
pub const CHALLENGE_JS_HEAD: &'static str = r#"
(function() {
    'use strict';

    var SEED = '__SEED__';
    var TOKEN = '__TOKEN__';
    var TYPE = '__TYPE__';
    var POW_DIFFICULTY = parseInt('__POW_DIFFICULTY__') || 4;
    var WASM_REQUIRED = ('__WASM_REQUIRED__' === 'true');"#;

/// The challenge script after its start.
pub const CHALLENGE_JS_BODY: &'static str = r#"

    var telemetry = {
        mouse: { events: 0, paths: [], lastX: null, lastY: null, teleports: 0, linearScore: 1.0 },
        scroll: { events: 0, velocities: [], lastDelta: 0, lastTime: 0 },
        keyboard: { events: 0, intervals: [], lastTime: 0 },
        focus: { events: 0, blurs: 0, visibilityChanges: 0, focusDuration: 0, focusStart: Date.now() },
        timing: { raf: [], microtask: [], eventLoop: [] },
        canvas: null,
        webgl: null,
        audio: null,
        fonts: null,
        navigator: {},
    };

    // ── Browser Environment Probes ─────────────────────────────
    function probeEnvironment() {
        var n = telemetry.navigator;
        n.webdriver = !!navigator.webdriver;
        n.pluginCount = navigator.plugins ? navigator.plugins.length : 0;
        n.languages = navigator.languages ? Array.from(navigator.languages) : [];
        n.hardwareConcurrency = navigator.hardwareConcurrency || 0;
        n.deviceMemory = navigator.deviceMemory || 0;
        n.maxTouchPoints = navigator.maxTouchPoints || 0;
        n.pdfViewer = !!(navigator.plugins && navigator.plugins.namedItem && navigator.plugins.namedItem('PDF Viewer'));
        n.webusb = 'usb' in navigator;
        n.bluetooth = 'bluetooth' in navigator;
        n.screen = { w: screen.width, h: screen.height, depth: screen.colorDepth };
        n.tz = Intl.DateTimeFormat().resolvedOptions().timeZone;
        n.languages_header = navigator.languages.join(',');
    }

    // ── Canvas Fingerprint ────────────────────────────────────
    function canvasFingerprint() {
        try {
            var c = document.createElement('canvas');
            c.width = 200; c.height = 50;
            var ctx = c.getContext('2d');
            ctx.textBaseline = 'top';
            ctx.font = "14px 'Arial'";
            ctx.fillStyle = '#f60';
            ctx.fillRect(125, 1, 62, 20);
            ctx.fillStyle = '#069';
            ctx.fillText('Vo!d \ud83d\udee1\ufe0f <canvas>', 2, 15);
            ctx.fillStyle = 'rgba(102,204,0,0.7)';
            ctx.fillText('Vo!d \ud83d\udee1\ufe0f <canvas>', 4, 17);
            return c.toDataURL().slice(-32);
        } catch(e) { return 'error'; }
    }

    // ── WebGL Fingerprint ─────────────────────────────────────
    function webglFingerprint() {
        try {
            var c = document.createElement('canvas');
            var gl = c.getContext('webgl') || c.getContext('experimental-webgl');
            if (!gl) return { vendor: 'none', renderer: 'none' };
            var dbgExt = gl.getExtension('WEBGL_debug_renderer_info');
            return {
                vendor:   dbgExt ? gl.getParameter(dbgExt.UNMASKED_VENDOR_WEBGL) : gl.getParameter(gl.VENDOR),
                renderer: dbgExt ? gl.getParameter(dbgExt.UNMASKED_RENDERER_WEBGL) : gl.getParameter(gl.RENDERER),
                version:  gl.getParameter(gl.VERSION),
                glslVersion: gl.getParameter(gl.SHADING_LANGUAGE_VERSION),
            };
        } catch(e) { return { vendor: 'error', renderer: 'error' }; }
    }

    // ── Audio Fingerprint ─────────────────────────────────────
    function audioFingerprint(cb) {
        try {
            var ctx = new (window.AudioContext || window.webkitAudioContext)({ sampleRate: 44100 });
            var oscillator = ctx.createOscillator();
            var analyser   = ctx.createAnalyser();
            var gain       = ctx.createGain();
            var processor  = ctx.createScriptProcessor(4096, 1, 1);

            oscillator.type = 'triangle';
            oscillator.frequency.value = 10000;
            gain.gain.value = 0;

            oscillator.connect(analyser);
            analyser.connect(processor);
            processor.connect(gain);
            gain.connect(ctx.destination);

            processor.onaudioprocess = function(e) {
                var data = e.inputBuffer.getChannelData(0);
                var sum = 0;
                for (var i = 0; i < data.length; i++) sum += Math.abs(data[i]);
                cb((sum / data.length).toString().slice(0, 16));
                oscillator.disconnect();
                processor.disconnect();
                ctx.close();
            };
            oscillator.start(0);
            oscillator.stop(0.1);
        } catch(e) { cb('error'); }
    }

    // ── Event Loop Timing ─────────────────────────────────────
    function measureEventLoop() {
        var measurements = [];
        var count = 0;
        function measure() {
            if (count++ >= 20) {
                telemetry.timing.eventLoop = measurements;
                return;
            }
            var t0 = performance.now();
            setTimeout(function() {
                measurements.push(performance.now() - t0);
                measure();
            }, 0);
        }
        measure();
    }

    // ── requestAnimationFrame Timing ──────────────────────────
    function measureRAF() {
        var times = [];
        var last = performance.now();
        var count = 0;
        function frame() {
            var now = performance.now();
            times.push(now - last);
            last = now;
            if (++count < 30) requestAnimationFrame(frame);
            else telemetry.timing.raf = times;
        }
        requestAnimationFrame(frame);
    }

    // ── Mouse Tracking ────────────────────────────────────────
    document.addEventListener('mousemove', function(e) {
        var t = telemetry.mouse;
        t.events++;
        if (t.lastX !== null) {
            var dx = e.clientX - t.lastX;
            var dy = e.clientY - t.lastY;
            var dist = Math.sqrt(dx*dx + dy*dy);
            if (dist > 100) t.teleports++;  // sudden jump
            t.paths.push([e.clientX, e.clientY, Date.now()]);
            if (t.paths.length > 100) t.paths.shift();
        }
        t.lastX = e.clientX;
        t.lastY = e.clientY;
    }, { passive: true });

    // ── Scroll Tracking ───────────────────────────────────────
    document.addEventListener('scroll', function(e) {
        var t = telemetry.scroll;
        var now = Date.now();
        t.events++;
        if (t.lastTime) {
            var dt = now - t.lastTime;
            var vel = Math.abs(window.scrollY - t.lastY) / (dt || 1);
            t.velocities.push(vel);
        }
        t.lastY = window.scrollY;
        t.lastTime = now;
    }, { passive: true });

    // ── Keyboard Tracking ─────────────────────────────────────
    document.addEventListener('keydown', function(e) {
        var t = telemetry.keyboard;
        var now = Date.now();
        t.events++;
        if (t.lastTime) t.intervals.push(now - t.lastTime);
        t.lastTime = now;
    });

    // ── Focus Tracking ────────────────────────────────────────
    window.addEventListener('focus',  function() { telemetry.focus.events++; telemetry.focus.focusStart = Date.now(); });
    window.addEventListener('blur',   function() { telemetry.focus.blurs++; telemetry.focus.focusDuration += Date.now() - telemetry.focus.focusStart; });
    document.addEventListener('visibilitychange', function() { telemetry.focus.visibilityChanges++; });

    // ── Proof of Work Engine ───────────────────────────────────
    // difficulty is in BITS, matching the server-side _verify_pow exactly.
    // difficulty=4  → 1 leading zero hex char  (~16 attempts avg)
    // difficulty=8  → 2 leading zero hex chars (~256 attempts avg)
    // difficulty=16 → 4 leading zero hex chars (~65K attempts avg)
    // difficulty=20 → 5 leading zero hex chars + partial nibble (~1M attempts avg)
    async function solvePoW(seed, difficultyBits) {
        var fullHexChars  = Math.floor(difficultyBits / 4);
        var remainderBits = difficultyBits % 4;
        // mask for the partial nibble: e.g. 2 remainder bits → 0b1100 = 0xC
        var nibbleMask = remainderBits > 0 ? ((0xF << (4 - remainderBits)) & 0xF) : 0;
        var hexPrefix  = '0'.repeat(fullHexChars);

        var nonce  = 0;
        var start  = performance.now();
        var status = document.getElementById('void-status');

        while (true) {
            var attempt   = seed + nonce.toString();
            var msgBuffer = new TextEncoder().encode(attempt);
            var hashBuffer = await crypto.subtle.digest('SHA-256', msgBuffer);
            var hashArray  = Array.from(new Uint8Array(hashBuffer));
            var hashHex    = hashArray.map(function(b){ return b.toString(16).padStart(2,'0'); }).join('');

            if (hashHex.startsWith(hexPrefix)) {
                // Check partial nibble if difficulty is not a multiple of 4 bits
                var nibbleOk = (nibbleMask === 0) ||
                    ((parseInt(hashHex[fullHexChars], 16) & nibbleMask) === 0);
                if (nibbleOk) {
                    var elapsed = performance.now() - start;
                    if (status) status.textContent = 'Challenge solved in ' + Math.round(elapsed) + 'ms';
                    return { nonce: nonce, hash: hashHex, elapsed: elapsed };
                }
            }

            nonce++;
            if (nonce % 500 === 0) {
                await new Promise(function(r){ setTimeout(r, 0); });
                // Expected attempts = 2^difficultyBits; log2 progress estimate
                var pct = Math.min(95, (Math.log(nonce) / (difficultyBits * Math.LN2)) * 100);
                if (status) status.textContent = 'Solving challenge... ' + Math.round(pct) + '%';
            }
        }
    }

    // ── WASM Environment Probe ────────────────────────────────
    async function probeWasm() {
        try {
            // Minimal WASM module that adds two i32s
            // (wat: (module (func (export "add") (param i32 i32) (result i32) local.get 0 local.get 1 i32.add)))
            var wasmBytes = new Uint8Array([0,97,115,109,1,0,0,0,1,7,1,96,2,127,127,1,127,3,2,1,0,7,7,1,3,97,100,100,0,0,10,9,1,7,0,32,0,32,1,106,11]);
            var mod = await WebAssembly.instantiate(wasmBytes);
            var result = mod.instance.exports.add(21, 21);
            return result === 42;  // should be true; headless envs might fail
        } catch(e) { return false; }
    }

    // ── Font Metric Fingerprint ───────────────────────────────
    function fontMetrics() {
        var baseFonts = ['monospace', 'sans-serif', 'serif'];
        var testFonts = ['Arial', 'Helvetica', 'Times New Roman', 'Courier New', 'Georgia', 'Verdana'];
        var canvas = document.createElement('canvas');
        var ctx = canvas.getContext('2d');
        var widths = {};
        testFonts.forEach(function(font) {
            ctx.font = '72px ' + font + ', monospace';
            widths[font] = ctx.measureText('mmmmmmmmmmlli').width;
        });
        return JSON.stringify(widths);
    }

    // ── Main execution ────────────────────────────────────────
    async function main() {
        probeEnvironment();
        measureEventLoop();
        measureRAF();
        telemetry.canvas = canvasFingerprint();
        telemetry.webgl  = webglFingerprint();
        telemetry.fonts  = fontMetrics();
        telemetry.wasmOk = await probeWasm();
        audioFingerprint(async function(audioHash) {
            telemetry.audio = audioHash;
            await runChallenge();
        });
    }

    async function runChallenge() {
        var result = null;
        var status = document.getElementById('void-status');

        if (TYPE === 'pow' || TYPE === 'js') {
            // Include difficulty in result — server verifies we solved the correct
            // difficulty and not a downgraded one (fixes PoW downgrade attack).
            var powResult = await solvePoW(SEED, POW_DIFFICULTY || 4);
            result = { nonce: powResult.nonce, hash: powResult.hash,
                       elapsed: powResult.elapsed, difficulty: POW_DIFFICULTY || 4 };
            if (WASM_REQUIRED) {
                result.wasmOk = telemetry.wasmOk;
                result.wasmTiming = telemetry.timing;
            }
        }

        var payload = { token: TOKEN, seed: SEED, type: TYPE, result: result, telemetry: telemetry };

        try {
            var response = await fetch('/__void/verify', {
                method: 'POST',
                headers: { 'Content-Type': 'application/json' },
                body: JSON.stringify(payload),
            });
            var data = await response.json();
            if (data.ok) {
                // HttpOnly cannot be set via document.cookie — browsers silently ignore it.
                // The pass token must be JS-readable so the page can reload after
                // challenge completion. The edge proxy sets a proper HttpOnly cookie
                // server-side once it validates __void_pass on the next request.
                document.cookie = '__void_pass=' + data.pass_token + '; path=/; SameSite=Lax';
                window.location.reload();
            } else {
                if (status) status.textContent = 'Verification failed. Please refresh.';
            }
        } catch(e) {
            if (status) status.textContent = 'Network error. Please refresh.';
        }
    }

    // Delay slightly to collect initial telemetry before running
    setTimeout(main, 500);
})();
"#;

/// The script that is put into pages to observe a visitor silently.
pub const TELEMETRY_JS: &'static str = r#"(function(){
    'use strict';
    var t={mouse:{events:0,paths:[],teleports:0,lastX:null,lastY:null},
           scroll:{events:0,velocities:[],lastY:0,lastTime:0},
           keyboard:{events:0,intervals:[],lastTime:0},
           focus:{events:0,blurs:0,visibilityChanges:0},
           navigator:{}};
    document.addEventListener('mousemove',function(e){
        t.mouse.events++;
        if(t.mouse.lastX!==null){
            var dx=e.clientX-t.mouse.lastX,dy=e.clientY-t.mouse.lastY;
            if(Math.sqrt(dx*dx+dy*dy)>100)t.mouse.teleports++;
            t.mouse.paths.push([e.clientX,e.clientY,Date.now()]);
            if(t.mouse.paths.length>50)t.mouse.paths.shift();
        }
        t.mouse.lastX=e.clientX;t.mouse.lastY=e.clientY;
    },{passive:true});
    document.addEventListener('scroll',function(){
        var now=Date.now();t.scroll.events++;
        if(t.scroll.lastTime)t.scroll.velocities.push(Math.abs(window.scrollY-t.scroll.lastY)/(now-t.scroll.lastTime||1));
        t.scroll.lastY=window.scrollY;t.scroll.lastTime=now;
    },{passive:true});
    document.addEventListener('keydown',function(){
        var now=Date.now();t.keyboard.events++;
        if(t.keyboard.lastTime)t.keyboard.intervals.push(now-t.keyboard.lastTime);
        t.keyboard.lastTime=now;
    });
    window.addEventListener('focus',function(){t.focus.events++;});
    window.addEventListener('blur',function(){t.focus.blurs++;});
    document.addEventListener('visibilitychange',function(){t.focus.visibilityChanges++;});
    var n=t.navigator;
    n.webdriver=!!navigator.webdriver;
    n.pluginCount=navigator.plugins?navigator.plugins.length:0;
    n.languages=navigator.languages?Array.from(navigator.languages):[];
    n.screen={w:screen.width,h:screen.height};
    setTimeout(function(){
        fetch('/__void/telemetry',{method:'POST',
            headers:{'Content-Type':'application/json'},
            body:JSON.stringify(t),keepalive:true}).catch(function(){});
    },4000);
})();"#;

} // verus!
