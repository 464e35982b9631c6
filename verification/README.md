# Libemin

A small desktop helper that books working hours on a Libemax site without embedding the website.

- It signs in at the JSON endpoints of the site, with the code sent by mail where the site wants
  one.
- It reads the pages behind the login and finds the form that takes bookings, its fields and the
  addresses at which places of work are looked up.
- It prepares bookings for a period, with the same hours for every day or other hours for single
  days, and sends them one by one as the form of the site would.

The password is not stored. The cookies of a session are, until the user signs out or the site
ends the session.

## Layout

- `src/` is the library. Every function in it but the wrappers described below is verified with
  Verus: what it returns and changes is stated in its contract and proved.
  - `text`, `sorting`, `calendar`, `fields`: strings, stable sorting, dates and times, form fields
  - `json`, `lookup`, `links`, `markup`: documents, lists of items, addresses and pages
  - `form`, `discovery`: the form that takes bookings, and the search for its page
  - `booking`: bookings, what is sent for them and what the site answers
  - `libemax`, `job`: the requests to the site, and the jobs that are made of them
  - `app`, `storage`: the state of the helper, and what is kept between two runs
- `tests/` runs the library.
- `app/` is the program around it: the window, the connection and the files.

Jobs do no input or output themselves. A `Task` begins with an `Opening`; each `Step` names a
`Request`, and the `Reply` to it leads to the next `Step` until the job finishes with a
`JobResult`. The program performs the requests and hands the replies back.

What the library takes from other crates (parsing dates, addresses, JSON and HTML, regular
expressions, the place of the configuration directory) is called through small functions marked
`external_body`. Their contracts are not proved; the comment above each says what it claims.

## Notes

- Set the domain of the site in the field `Base URL`, for example `https://azienda.libemax.com`.
- If the page with the form is not found, paste its address into `Insert form URL` and refresh.
- `glutin-winit`, below `eframe`, is named among the dependencies to choose X11 for the window.
