# cove_mail

The logic of Cove Mail, a local-first mail, calendar and reminders client,
as a library verified with Verus: each public function states in its
`requires`/`ensures` what it returns, and Verus proves the code against it.

## Layout

- `src/`: the verified library, one module per concern:
  - text, numbers, time, ids, pattern, markup, json: text, number and
    instant handling and the calls into `chrono`, `uuid`, `regex`, `base64`,
    `url` and `ammonia` behind trusted items;
  - model, config, settings_secrets, account_setup, texts: the data model,
    the settings with their defaults and provider presets;
  - mail, mime, ews, jmap, jmap_requests, fetch, threads, compose,
    html_view: mail folders, MIME parsing, protocol payloads, threading,
    reply drafts and the HTML view;
  - calendar, ical, cloud_calendar, tasks, cloud_tasks, natural: events,
    iCalendar import and export, reminders and their natural-language entry;
  - ical_round_trip, todo_round_trip: the proofs that a written event or
    task document reads back as the event or task;
  - sync, sync_run, notify: the sync queue scheduler, the steps of a run,
    retries and notices;
  - security, oauth: OAuth PKCE flows, token handling and secret checks;
  - ai, ai_cloud: local and cloud assistant requests and their opt-in;
  - desktop, native: the decisions of the desktop shell (setup checks,
    search operators, unsubscribe links, chat bubbles).
- `tests/`: tests of the library, run against the real outside crates.
- `app/`: the command-line program around the library: files, network,
  keychain, and the async loop that runs the sync queue.

Laws that span several functions are public proof functions named
`lemma_*`, next to the functions they speak of.
