//! The page around a canvas, and where its placeholders stand.
use vstd::prelude::*;
use vstd::string::*;

use crate::text::occurs_at;

verus! {

/// The page around a canvas: React, Tailwind and Babel set up, and placeholders
/// for the title, the host theme and the body, which [`canvas_document`] fills in.
/// The React runtime and the component library come from the bundled SDK
/// (`/sdk.js`); the canvas is transpiled in the page and mounted as `<Canvas/>`.
pub const CANVAS_SHELL: &'static str = r####"<!doctype html>
<html lang="en">
<head>
<meta charset="utf-8" />
<meta name="viewport" content="width=device-width, initial-scale=1" />
<title>CANVAS_TITLE_PLACEHOLDER</title>
<script>
  // Capture ANY uncaught error (including failures inside Babel's transform or
  // the compiled scripts, which are outside our try/catch) for the diagnostic,
  // and report the current error list to the host (Zed) over IPC so the agent
  // can see when a canvas it wrote is broken.
  window.__canvasErrors = [];
  window.__reportCanvasErrors = function () {
    try {
      if (window.ipc && window.ipc.postMessage) {
        window.ipc.postMessage(JSON.stringify({ errors: window.__canvasErrors || [] }));
      }
    } catch (e) {}
  };
  window.addEventListener('error', function (e) {
    window.__canvasErrors.push(
      String((e && e.error && e.error.stack) || (e && e.message) || e)
      + (e && e.filename ? (' @ ' + e.filename + ':' + e.lineno) : '')
    );
    window.__reportCanvasErrors();
  });
  window.addEventListener('unhandledrejection', function (e) {
    window.__canvasErrors.push('unhandledrejection: ' + String((e && e.reason && e.reason.stack) || (e && e.reason) || e));
    window.__reportCanvasErrors();
  });
</script>
<script>
  // Host theme injected by Zed. `useHostTheme()` reads this object; the bootstrap
  // applies it as a `dark` class (so Tailwind `dark:` variants follow Zed's
  // active theme rather than the OS setting) and as `--zed-*` CSS variables.
  window.__zedTheme = "CANVAS_THEME_PLACEHOLDER";
  (function () {
    var t = window.__zedTheme;
    if (!t) return;
    document.documentElement.classList.toggle('dark', t.kind === 'dark');
    var root = document.documentElement.style;
    var colors = t.colors || {};
    for (var key in colors) {
      if (Object.prototype.hasOwnProperty.call(colors, key)) {
        root.setProperty('--zed-' + key, colors[key]);
      }
    }
    // shadcn token variables (HSL triplets like "220 13% 18%").
    var vars = t.vars || {};
    for (var name in vars) {
      if (Object.prototype.hasOwnProperty.call(vars, name)) {
        root.setProperty('--' + name, vars[name]);
      }
    }
  })();
</script>
<script src="zedcanvas://localhost/tailwind.js"></script>
<script>
  // Tailwind config wired to the shadcn CSS-variable token theme. The variables
  // themselves (`--background`, `--primary`, …) are set from the Zed theme by the
  // bootstrap above.
  tailwind.config = {
    darkMode: 'class',
    theme: {
      extend: {
        colors: {
          border: 'hsl(var(--border))',
          input: 'hsl(var(--input))',
          ring: 'hsl(var(--ring))',
          background: 'hsl(var(--background))',
          foreground: 'hsl(var(--foreground))',
          primary: { DEFAULT: 'hsl(var(--primary))', foreground: 'hsl(var(--primary-foreground))' },
          secondary: { DEFAULT: 'hsl(var(--secondary))', foreground: 'hsl(var(--secondary-foreground))' },
          destructive: { DEFAULT: 'hsl(var(--destructive))', foreground: 'hsl(var(--destructive-foreground))' },
          muted: { DEFAULT: 'hsl(var(--muted))', foreground: 'hsl(var(--muted-foreground))' },
          accent: { DEFAULT: 'hsl(var(--accent))', foreground: 'hsl(var(--accent-foreground))' },
          popover: { DEFAULT: 'hsl(var(--popover))', foreground: 'hsl(var(--popover-foreground))' },
          card: { DEFAULT: 'hsl(var(--card))', foreground: 'hsl(var(--card-foreground))' },
        },
        borderRadius: { lg: 'var(--radius)', md: 'calc(var(--radius) - 2px)', sm: 'calc(var(--radius) - 4px)' },
        fontFamily: { serif: ['ETBembo', '"Palatino Linotype"', 'Palatino', 'Georgia', 'serif'] },
      },
    },
  };
</script>
<script src="zedcanvas://localhost/sdk.js"></script>
<script src="zedcanvas://localhost/babel.js"></script>
<style>
  html, body { margin: 0; height: 100%; }
  :root { --radius: 0.5rem; }
  /* Default border color to the shadcn token (mirrors shadcn's base layer). */
  * { border-color: hsl(var(--border, 0 0% 85%)); }
  /* Driven by the host theme via the shadcn `--background`/`--foreground` tokens
     (set by the theme bootstrap), with light defaults as a fallback. */
  body { background: hsl(var(--background, 60 100% 99%)); color: hsl(var(--foreground, 0 0% 7%)); }
  /* Make code / equation blocks theme-aware even outside `prose` (e.g. inside a
     Card), so agent-authored blocks follow the host theme automatically. */
  pre, code, kbd, samp { background: var(--zed-element, rgba(0, 0, 0, 0.06)); border-radius: 4px; }
  #root { min-height: 100%; }
</style>
</head>
<body class="font-serif">
<div id="root" class="px-8 py-6"></div>

<script type="text/plain" id="canvas-body">
// CANVAS_BODY_PLACEHOLDER
</script>

<script>
  // Transpile the agent's canvas with Babel's stable transform API and run it via
  // indirect eval (global scope). The React runtime + component library come from
  // the bundled SDK (sdk.js), which already populated the globals. We avoid
  // Babel's transformScriptTags / dynamic <script> injection, which throws
  // (appendChild) inside WKWebView.
  (function () {
    function fail(msg) {
      window.__canvasErrors.push(msg);
      window.__reportCanvasErrors();
      var root = document.getElementById('root');
      if (root) {
        root.innerHTML = '<pre style="white-space:pre-wrap;color:#c0392b;font:13px ui-monospace,monospace;padding:1rem">' + msg + '</pre>';
      }
    }
    try {
      if (!window.Babel || !Babel.transform) { return fail('Babel.transform unavailable'); }
      if (typeof React === 'undefined' || typeof ReactDOM === 'undefined') { return fail('Canvas SDK (sdk.js) failed to load'); }
      var body = document.getElementById('canvas-body').textContent;
      (0, eval)(Babel.transform(body, { presets: ['react', 'typescript'], filename: 'canvas.tsx' }).code);
      var element = (typeof Canvas !== 'undefined')
        ? React.createElement(Canvas)
        : React.createElement('div', { className: 'text-rose-600' }, 'Define a top-level: function Canvas() { return (...) }');
      ReactDOM.createRoot(document.getElementById('root')).render(element);
    } catch (e) {
      fail('run: ' + String((e && e.stack) || e));
    }
    // Report the post-render error state (empty list means success).
    window.__reportCanvasErrors();
  })();
</script>

<script>
  // On-canvas diagnostic: if nothing rendered, report what loaded (so we can
  // debug without the web inspector).
  setTimeout(function () {
    var root = document.getElementById('root');
    if (root && root.childElementCount === 0) {
      root.innerHTML = '<pre style="white-space:pre-wrap;color:#c0392b;font:13px ui-monospace,monospace;padding:1rem">'
        + 'Canvas runtime diagnostic (nothing rendered)\n\n'
        + 'React: ' + (typeof React) + '\n'
        + 'ReactDOM: ' + (typeof ReactDOM) + '\n'
        + 'Babel: ' + (typeof Babel) + '\n'
        + 'tailwind: ' + (typeof tailwind) + '\n\n'
        + 'Errors:\n' + ((window.__canvasErrors && window.__canvasErrors.length) ? window.__canvasErrors.join('\n') : '(none captured)')
        + '</pre>';
    }
  }, 2000);
</script>
</body>
</html>
"####;

/// Where the title stands in the shell.
pub open spec fn title_at() -> int {
    143
}

/// Where the host theme stands in the shell.
pub open spec fn theme_at() -> int {
    1507
}

/// Where the body stands in the shell.
pub open spec fn body_at() -> int {
    4694
}

/// The text of the shell as far as its placeholders need it: how long it is, where a
/// `V` stands, which is in each of them, and what stands at them and around them.
#[verifier::rlimit(100)]
#[verifier::spinoff_prover]
proof fn lemma_shell_text()
    ensures
        CANVAS_SHELL@.len() == 7160,
        forall|i: int|
            0 <= i < CANVAS_SHELL@.len() && #[trigger] CANVAS_SHELL@[i] == 'V' ==> i == 146 || i
                == 1511 || i == 4700 || i == 5091,
        CANVAS_SHELL@[5092] == 'i',
        CANVAS_SHELL@[title_at() - 1] == '>',
        CANVAS_SHELL@[title_at() + 24] == '<',
        CANVAS_SHELL@[theme_at() - 2] == '=',
        CANVAS_SHELL@[theme_at() - 1] == ' ',
        CANVAS_SHELL@[theme_at() + 26] == ';',
        CANVAS_SHELL@[body_at() - 1] == '\n',
        CANVAS_SHELL@[body_at() + 26] == '\n',
        CANVAS_SHELL@.subrange(title_at(), title_at() + 24) == "CANVAS_TITLE_PLACEHOLDER"@,
        CANVAS_SHELL@.subrange(theme_at(), theme_at() + 26) == "\"CANVAS_THEME_PLACEHOLDER\""@,
        CANVAS_SHELL@.subrange(body_at(), body_at() + 26) == "// CANVAS_BODY_PLACEHOLDER"@,
{
    reveal_strlit("CANVAS_TITLE_PLACEHOLDER");
    reveal_strlit("\"CANVAS_THEME_PLACEHOLDER\"");
    reveal_strlit("// CANVAS_BODY_PLACEHOLDER");
    reveal_strlit(
        r####"<!doctype html>
<html lang="en">
<head>
<meta charset="utf-8" />
<meta name="viewport" content="width=device-width, initial-scale=1" />
<title>CANVAS_TITLE_PLACEHOLDER</title>
<script>
  // Capture ANY uncaught error (including failures inside Babel's transform or
  // the compiled scripts, which are outside our try/catch) for the diagnostic,
  // and report the current error list to the host (Zed) over IPC so the agent
  // can see when a canvas it wrote is broken.
  window.__canvasErrors = [];
  window.__reportCanvasErrors = function () {
    try {
      if (window.ipc && window.ipc.postMessage) {
        window.ipc.postMessage(JSON.stringify({ errors: window.__canvasErrors || [] }));
      }
    } catch (e) {}
  };
  window.addEventListener('error', function (e) {
    window.__canvasErrors.push(
      String((e && e.error && e.error.stack) || (e && e.message) || e)
      + (e && e.filename ? (' @ ' + e.filename + ':' + e.lineno) : '')
    );
    window.__reportCanvasErrors();
  });
  window.addEventListener('unhandledrejection', function (e) {
    window.__canvasErrors.push('unhandledrejection: ' + String((e && e.reason && e.reason.stack) || (e && e.reason) || e));
    window.__reportCanvasErrors();
  });
</script>
<script>
  // Host theme injected by Zed. `useHostTheme()` reads this object; the bootstrap
  // applies it as a `dark` class (so Tailwind `dark:` variants follow Zed's
  // active theme rather than the OS setting) and as `--zed-*` CSS variables.
  window.__zedTheme = "CANVAS_THEME_PLACEHOLDER";
  (function () {
    var t = window.__zedTheme;
    if (!t) return;
    document.documentElement.classList.toggle('dark', t.kind === 'dark');
    var root = document.documentElement.style;
    var colors = t.colors || {};
    for (var key in colors) {
      if (Object.prototype.hasOwnProperty.call(colors, key)) {
        root.setProperty('--zed-' + key, colors[key]);
      }
    }
    // shadcn token variables (HSL triplets like "220 13% 18%").
    var vars = t.vars || {};
    for (var name in vars) {
      if (Object.prototype.hasOwnProperty.call(vars, name)) {
        root.setProperty('--' + name, vars[name]);
      }
    }
  })();
</script>
<script src="zedcanvas://localhost/tailwind.js"></script>
<script>
  // Tailwind config wired to the shadcn CSS-variable token theme. The variables
  // themselves (`--background`, `--primary`, …) are set from the Zed theme by the
  // bootstrap above.
  tailwind.config = {
    darkMode: 'class',
    theme: {
      extend: {
        colors: {
          border: 'hsl(var(--border))',
          input: 'hsl(var(--input))',
          ring: 'hsl(var(--ring))',
          background: 'hsl(var(--background))',
          foreground: 'hsl(var(--foreground))',
          primary: { DEFAULT: 'hsl(var(--primary))', foreground: 'hsl(var(--primary-foreground))' },
          secondary: { DEFAULT: 'hsl(var(--secondary))', foreground: 'hsl(var(--secondary-foreground))' },
          destructive: { DEFAULT: 'hsl(var(--destructive))', foreground: 'hsl(var(--destructive-foreground))' },
          muted: { DEFAULT: 'hsl(var(--muted))', foreground: 'hsl(var(--muted-foreground))' },
          accent: { DEFAULT: 'hsl(var(--accent))', foreground: 'hsl(var(--accent-foreground))' },
          popover: { DEFAULT: 'hsl(var(--popover))', foreground: 'hsl(var(--popover-foreground))' },
          card: { DEFAULT: 'hsl(var(--card))', foreground: 'hsl(var(--card-foreground))' },
        },
        borderRadius: { lg: 'var(--radius)', md: 'calc(var(--radius) - 2px)', sm: 'calc(var(--radius) - 4px)' },
        fontFamily: { serif: ['ETBembo', '"Palatino Linotype"', 'Palatino', 'Georgia', 'serif'] },
      },
    },
  };
</script>
<script src="zedcanvas://localhost/sdk.js"></script>
<script src="zedcanvas://localhost/babel.js"></script>
<style>
  html, body { margin: 0; height: 100%; }
  :root { --radius: 0.5rem; }
  /* Default border color to the shadcn token (mirrors shadcn's base layer). */
  * { border-color: hsl(var(--border, 0 0% 85%)); }
  /* Driven by the host theme via the shadcn `--background`/`--foreground` tokens
     (set by the theme bootstrap), with light defaults as a fallback. */
  body { background: hsl(var(--background, 60 100% 99%)); color: hsl(var(--foreground, 0 0% 7%)); }
  /* Make code / equation blocks theme-aware even outside `prose` (e.g. inside a
     Card), so agent-authored blocks follow the host theme automatically. */
  pre, code, kbd, samp { background: var(--zed-element, rgba(0, 0, 0, 0.06)); border-radius: 4px; }
  #root { min-height: 100%; }
</style>
</head>
<body class="font-serif">
<div id="root" class="px-8 py-6"></div>

<script type="text/plain" id="canvas-body">
// CANVAS_BODY_PLACEHOLDER
</script>

<script>
  // Transpile the agent's canvas with Babel's stable transform API and run it via
  // indirect eval (global scope). The React runtime + component library come from
  // the bundled SDK (sdk.js), which already populated the globals. We avoid
  // Babel's transformScriptTags / dynamic <script> injection, which throws
  // (appendChild) inside WKWebView.
  (function () {
    function fail(msg) {
      window.__canvasErrors.push(msg);
      window.__reportCanvasErrors();
      var root = document.getElementById('root');
      if (root) {
        root.innerHTML = '<pre style="white-space:pre-wrap;color:#c0392b;font:13px ui-monospace,monospace;padding:1rem">' + msg + '</pre>';
      }
    }
    try {
      if (!window.Babel || !Babel.transform) { return fail('Babel.transform unavailable'); }
      if (typeof React === 'undefined' || typeof ReactDOM === 'undefined') { return fail('Canvas SDK (sdk.js) failed to load'); }
      var body = document.getElementById('canvas-body').textContent;
      (0, eval)(Babel.transform(body, { presets: ['react', 'typescript'], filename: 'canvas.tsx' }).code);
      var element = (typeof Canvas !== 'undefined')
        ? React.createElement(Canvas)
        : React.createElement('div', { className: 'text-rose-600' }, 'Define a top-level: function Canvas() { return (...) }');
      ReactDOM.createRoot(document.getElementById('root')).render(element);
    } catch (e) {
      fail('run: ' + String((e && e.stack) || e));
    }
    // Report the post-render error state (empty list means success).
    window.__reportCanvasErrors();
  })();
</script>

<script>
  // On-canvas diagnostic: if nothing rendered, report what loaded (so we can
  // debug without the web inspector).
  setTimeout(function () {
    var root = document.getElementById('root');
    if (root && root.childElementCount === 0) {
      root.innerHTML = '<pre style="white-space:pre-wrap;color:#c0392b;font:13px ui-monospace,monospace;padding:1rem">'
        + 'Canvas runtime diagnostic (nothing rendered)\n\n'
        + 'React: ' + (typeof React) + '\n'
        + 'ReactDOM: ' + (typeof ReactDOM) + '\n'
        + 'Babel: ' + (typeof Babel) + '\n'
        + 'tailwind: ' + (typeof tailwind) + '\n\n'
        + 'Errors:\n' + ((window.__canvasErrors && window.__canvasErrors.length) ? window.__canvasErrors.join('\n') : '(none captured)')
        + '</pre>';
    }
  }, 2000);
</script>
</body>
</html>
"####,
    );
    assert(CANVAS_SHELL@.subrange(title_at(), title_at() + 24) =~= "CANVAS_TITLE_PLACEHOLDER"@);
    assert(CANVAS_SHELL@.subrange(theme_at(), theme_at() + 26)
        =~= "\"CANVAS_THEME_PLACEHOLDER\""@);
    assert(CANVAS_SHELL@.subrange(body_at(), body_at() + 26) =~= "// CANVAS_BODY_PLACEHOLDER"@);
}

/// Each placeholder stands once in the shell, set off from the text around it.
pub proof fn lemma_placeholders()
    ensures
        CANVAS_SHELL@.len() == 7160,
        "CANVAS_TITLE_PLACEHOLDER"@.len() == 24,
        "\"CANVAS_THEME_PLACEHOLDER\""@.len() == 26,
        "// CANVAS_BODY_PLACEHOLDER"@.len() == 26,
        forall|at: int|
            #[trigger] occurs_at(CANVAS_SHELL@, "CANVAS_TITLE_PLACEHOLDER"@, at) <==> at
                == title_at(),
        forall|at: int|
            #[trigger] occurs_at(CANVAS_SHELL@, "\"CANVAS_THEME_PLACEHOLDER\""@, at) <==> at
                == theme_at(),
        forall|at: int|
            #[trigger] occurs_at(CANVAS_SHELL@, "// CANVAS_BODY_PLACEHOLDER"@, at) <==> at
                == body_at(),
        CANVAS_SHELL@[title_at() - 1] == '>',
        CANVAS_SHELL@[title_at() + 24] == '<',
        CANVAS_SHELL@[theme_at() - 2] == '=',
        CANVAS_SHELL@[theme_at() - 1] == ' ',
        CANVAS_SHELL@[theme_at() + 26] == ';',
        CANVAS_SHELL@[body_at() - 1] == '\n',
        CANVAS_SHELL@[body_at() + 26] == '\n',
{
    lemma_shell_text();
    reveal_strlit("CANVAS_TITLE_PLACEHOLDER");
    reveal_strlit("\"CANVAS_THEME_PLACEHOLDER\"");
    reveal_strlit("// CANVAS_BODY_PLACEHOLDER");
    let title = "CANVAS_TITLE_PLACEHOLDER"@;
    let theme = "\"CANVAS_THEME_PLACEHOLDER\""@;
    let body = "// CANVAS_BODY_PLACEHOLDER"@;
    // What tells the places of a `V` apart.
    assert(CANVAS_SHELL@[150] == title[7] && CANVAS_SHELL@[151] == title[8]) by {
        assert(CANVAS_SHELL@.subrange(title_at(), title_at() + 24)[7] == title[7]);
        assert(CANVAS_SHELL@.subrange(title_at(), title_at() + 24)[8] == title[8]);
    }
    assert(CANVAS_SHELL@[1515] == theme[8] && CANVAS_SHELL@[1516] == theme[9]) by {
        assert(CANVAS_SHELL@.subrange(theme_at(), theme_at() + 26)[8] == theme[8]);
        assert(CANVAS_SHELL@.subrange(theme_at(), theme_at() + 26)[9] == theme[9]);
    }
    assert(CANVAS_SHELL@[4704] == body[10]) by {
        assert(CANVAS_SHELL@.subrange(body_at(), body_at() + 26)[10] == body[10]);
    }
    assert forall|at: int| #[trigger] occurs_at(CANVAS_SHELL@, title, at) implies at
        == title_at() by {
        let found = CANVAS_SHELL@.subrange(at, at + 24);
        assert(found[3] == 'V' && found[4] == 'A' && found[7] == 'T' && found[8] == 'I');
        assert(CANVAS_SHELL@[at + 3] == 'V');
    }
    assert forall|at: int| #[trigger] occurs_at(CANVAS_SHELL@, theme, at) implies at
        == theme_at() by {
        let found = CANVAS_SHELL@.subrange(at, at + 26);
        assert(found[4] == 'V' && found[5] == 'A' && found[8] == 'T' && found[9] == 'H');
        assert(CANVAS_SHELL@[at + 4] == 'V');
    }
    assert forall|at: int| #[trigger] occurs_at(CANVAS_SHELL@, body, at) implies at
        == body_at() by {
        let found = CANVAS_SHELL@.subrange(at, at + 26);
        assert(found[6] == 'V' && found[7] == 'A' && found[10] == 'B');
        assert(CANVAS_SHELL@[at + 6] == 'V');
    }
}

} // verus!
